//! Single sign-on as a flow: what is done next, after what came of the last
//! thing done.
//!
//! The engine's own steps are [`before_authentication`] and
//! [`after_authentication`], and what the application decides itself is answered
//! by [`callback_response`]; the flow says when, and for which request.
//!
//! [`before_authentication`]: super::sso::before_authentication
//! [`after_authentication`]: super::sso::after_authentication
//! [`callback_response`]: super::sso::callback_response

use super::error::{SamlActixError, SamlActixErrorView};
use super::post::{post_encode, post_issued_response, post_page};
use super::signature::{RedirectSignature, XmlSignatures};
use super::slo_flow::UNEXPECTED;
use super::sso::{
    admission, admit_request, choose_path, AuthnCallbackResult, AuthnSubjectResult, SsoNext,
    SsoPath, SsoReply,
};
use crate::idp::orchestrator::params::{Disposition, ResponseParams};
use crate::saml::error::ProfileError;
use crate::saml::metadata::{same_role, EntityDescriptor};
use crate::saml::request::ProcessedAuthnRequest;
use crate::text::{as_opt_str, opt_str, opt_text, to_opt_string};
use vstd::prelude::*;

verus! {

/// What the endpoint itself reads of an authentication request.
#[derive(Debug)]
pub struct AuthnRequestFacts {
    /// The `ID`.
    pub id: String,
    /// The issuer.
    pub issuer: Option<String>,
    /// Whether it has an XML signature.
    pub has_signature: bool,
}

/// What the application has set up.
#[derive(Debug, Clone, Copy, PartialEq, Eq, Structural)]
pub struct SsoSetup {
    /// Something that authenticates for the engine.
    pub subject_callback: bool,
    /// The engine.
    pub engine: bool,
    /// Something that decides everything itself.
    pub callback: bool,
}

/// Where a single sign-on stands: what it waits for.
#[derive(Debug)]
pub enum SsoFlow {
    /// The request.
    Request,
    /// What is trusted for the issuer, and what verifying the signatures found.
    Trust {
        /// The request.
        request: AuthnRequestFacts,
    },
    /// The request, validated against the metadata of its sender.
    Processing {
        /// The sender.
        entity: EntityDescriptor,
    },
    /// What the engine decides on the request.
    Decision {
        /// Where the response goes.
        acs_url: String,
    },
    /// Whom the application authenticated.
    Subject {
        /// Where the response goes.
        acs_url: String,
    },
    /// The engine's answer.
    Answer {
        /// Where the response goes.
        acs_url: String,
    },
    /// What the application decides itself.
    Callback {
        /// The request.
        processed: ProcessedAuthnRequest,
    },
    /// The response to what the application decided.
    CallbackAnswer {
        /// Where the response goes.
        acs_url: String,
    },
    /// Nothing any more.
    Over,
}

/// What came of the last thing done. `T` is a reply of the application's own.
#[derive(Debug)]
pub enum SsoEvent<T> {
    /// The message, parsed.
    Parsed(AuthnRequestFacts),
    /// What is known of the sender.
    Established {
        /// The metadata that is trusted for the issuer.
        entity: Option<EntityDescriptor>,
        /// What verifying the signature of the query found, if it has one.
        redirect: Option<RedirectSignature>,
        /// What verifying the XML signatures found.
        xml: XmlSignatures,
    },
    /// The request, validated.
    Processed(Result<ProcessedAuthnRequest, ProfileError>),
    /// What the engine decided.
    Decided(Result<SsoNext, SamlActixError>),
    /// Whom the application authenticated.
    Reported(Result<AuthnSubjectResult<T>, SamlActixError>),
    /// The engine's answer.
    Answered(Result<SsoReply<T>, SamlActixError>),
    /// What the application decided itself.
    CallbackReported(Result<AuthnCallbackResult, SamlActixError>),
    /// The response to what the application decided.
    CallbackAnswered(Result<String, SamlActixError>),
}

/// What is done next.
#[derive(Debug)]
pub enum SsoAction<T> {
    /// Find what is trusted for the issuer, and verify the signatures.
    Establish {
        /// The issuer.
        issuer: Option<String>,
    },
    /// Validate the request against the metadata of its sender.
    Process {
        /// Whether the request was authenticated.
        verified: bool,
    },
    /// Have the engine decide on the request.
    Decide {
        /// The request and the metadata.
        params: ResponseParams,
    },
    /// Ask the application to act on a disposition.
    Ask {
        /// The disposition.
        disposition: Disposition,
    },
    /// Have the engine answer.
    Answer {
        /// What the application reported.
        reported: AuthnSubjectResult<T>,
    },
    /// Ask the application to decide everything itself.
    AskCallback,
    /// Answer with what the application decided.
    AnswerCallback {
        /// The request.
        processed: ProcessedAuthnRequest,
        /// What the application decided.
        reported: AuthnCallbackResult,
    },
    /// Send a page that posts a response.
    Post {
        /// The page.
        page: String,
    },
    /// Send the application's own reply.
    Own(T),
    /// Answer with an error.
    Fail(SamlActixError),
}

/// Whether a flow ends with an error.
pub open spec fn sso_fails<T>(
    flow: SsoFlow,
    action: SsoAction<T>,
    error: SamlActixErrorView,
) -> bool {
    &&& flow is Over
    &&& action matches SsoAction::Fail(e)
    &&& e@ == error
}

/// Whether a flow ends with a page that posts a response.
pub open spec fn sso_posts<T>(
    flow: SsoFlow,
    action: SsoAction<T>,
    xml: Seq<char>,
    acs_url: Seq<char>,
    relay_state: Option<Seq<char>>,
) -> bool {
    &&& flow is Over
    &&& action matches SsoAction::Post { page }
    &&& page@ == post_page(xml, acs_url, relay_state)
}

/// Whether one step leads from `flow` to `next`, by doing `action`.
pub open spec fn sso_step<T>(
    setup: SsoSetup,
    relay_state: Option<Seq<char>>,
    flow: SsoFlow,
    event: SsoEvent<T>,
    next: SsoFlow,
    action: SsoAction<T>,
) -> bool {
    match (flow, event) {
        (SsoFlow::Request, SsoEvent::Parsed(request)) => {
            &&& next == (SsoFlow::Trust { request })
            &&& action matches SsoAction::Establish { issuer }
            &&& opt_text(issuer) == opt_text(request.issuer)
        },
        (SsoFlow::Trust { request }, SsoEvent::Established { entity, redirect, xml }) => {
            match admission(
                opt_text(request.issuer),
                entity,
                redirect,
                xml,
                request.id@,
                request.has_signature,
            ) {
                Ok(admitted) => {
                    &&& next == (SsoFlow::Processing { entity: entity->0 })
                    &&& action == SsoAction::<T>::Process { verified: admitted.1 }
                },
                Err(e) => sso_fails(next, action, e),
            }
        },
        (SsoFlow::Processing { entity }, SsoEvent::Processed(result)) => match result {
            Err(e) => sso_fails(next, action, SamlActixErrorView::Profile(e@)),
            Ok(processed) => if setup.subject_callback && setup.engine {
                match super::config::saml2_role(Some(entity)) {
                    Some(role) => {
                        &&& next matches SsoFlow::Decision { acs_url }
                        &&& acs_url@ == processed.acs_url@
                        &&& action matches SsoAction::Decide { params }
                        &&& params.processed == processed
                        &&& same_role(params.sp_sso, role)
                        &&& params.sp_entity == Some(entity)
                    },
                    None => sso_fails(next, action, SamlActixErrorView::Internal(UNEXPECTED@)),
                }
            } else if setup.callback {
                next == (SsoFlow::Callback { processed }) && action is AskCallback
            } else {
                sso_fails(
                    next,
                    action,
                    SamlActixErrorView::Configuration("no AuthnCallback registered for IdP SSO"@),
                )
            },
        },
        (SsoFlow::Decision { acs_url }, SsoEvent::Decided(result)) => match result {
            Err(e) => sso_fails(next, action, e@),
            Ok(SsoNext::Deliver(issued)) => sso_posts(
                next,
                action,
                issued@.xml,
                acs_url@,
                relay_state,
            ),
            Ok(SsoNext::Ask(disposition)) => next == (SsoFlow::Subject { acs_url }) && action
                == SsoAction::<T>::Ask { disposition },
        },
        (SsoFlow::Subject { acs_url }, SsoEvent::Reported(result)) => match result {
            Err(e) => sso_fails(next, action, e@),
            Ok(reported) => next == (SsoFlow::Answer { acs_url }) && action
                == SsoAction::<T>::Answer { reported },
        },
        (SsoFlow::Answer { acs_url }, SsoEvent::Answered(result)) => match result {
            Err(e) => sso_fails(next, action, e@),
            Ok(SsoReply::Deliver(issued)) => sso_posts(
                next,
                action,
                issued@.xml,
                acs_url@,
                relay_state,
            ),
            Ok(SsoReply::Application(own)) => next is Over && action == SsoAction::<T>::Own(own),
        },
        (SsoFlow::Callback { processed }, SsoEvent::CallbackReported(result)) => match result {
            Err(e) => sso_fails(next, action, e@),
            Ok(reported) => {
                &&& next matches SsoFlow::CallbackAnswer { acs_url }
                &&& acs_url@ == processed.acs_url@
                &&& action == SsoAction::<T>::AnswerCallback { processed, reported }
            },
        },
        (SsoFlow::CallbackAnswer { acs_url }, SsoEvent::CallbackAnswered(result)) => match result {
            Err(e) => sso_fails(next, action, e@),
            Ok(xml) => sso_posts(next, action, xml@, acs_url@, relay_state),
        },
        _ => sso_fails(next, action, SamlActixErrorView::Internal(UNEXPECTED@)),
    }
}

fn unexpected<T>() -> (result: (SsoFlow, SsoAction<T>))
    ensures
        sso_fails(result.0, result.1, SamlActixErrorView::Internal(UNEXPECTED@)),
{
    (SsoFlow::Over, SsoAction::Fail(SamlActixError::Internal(UNEXPECTED.to_owned())))
}

impl SsoFlow {
    /// Go on after an event.
    pub fn step<T>(self, event: SsoEvent<T>, setup: SsoSetup, relay_state: Option<&str>) -> (result: (
        SsoFlow,
        SsoAction<T>,
    ))
        ensures
            sso_step(setup, opt_str(relay_state), self, event, result.0, result.1),
    {
        match (self, event) {
            (SsoFlow::Request, SsoEvent::Parsed(request)) => {
                let issuer = to_opt_string(as_opt_str(&request.issuer));
                (SsoFlow::Trust { request }, SsoAction::Establish { issuer })
            },
            (SsoFlow::Trust { request }, SsoEvent::Established { entity, redirect, xml }) => {
                let verified = match admit_request(
                    as_opt_str(&request.issuer),
                    entity.as_ref(),
                    redirect.as_ref(),
                    &xml,
                    request.id.as_str(),
                    request.has_signature,
                ) {
                    Ok((_, verified)) => verified,
                    Err(e) => {
                        return (SsoFlow::Over, SsoAction::Fail(e));
                    },
                };
                match entity {
                    Some(entity) => (
                        SsoFlow::Processing { entity },
                        SsoAction::Process { verified },
                    ),
                    None => unexpected(),
                }
            },
            (SsoFlow::Processing { entity }, SsoEvent::Processed(result)) => {
                let processed = match result {
                    Ok(p) => p,
                    Err(e) => {
                        return (SsoFlow::Over, SsoAction::Fail(SamlActixError::Profile(e)));
                    },
                };
                match choose_path(setup.subject_callback, setup.engine, setup.callback) {
                    Ok(SsoPath::Engine) => {
                        let sp_sso = match entity.saml2_sp_sso_descriptor() {
                            Some(role) => role.clone(),
                            None => {
                                return unexpected();
                            },
                        };
                        let acs_url = processed.acs_url.clone();
                        let params = ResponseParams { processed, sp_sso, sp_entity: Some(entity) };
                        (SsoFlow::Decision { acs_url }, SsoAction::Decide { params })
                    },
                    Ok(SsoPath::Callback) => (
                        SsoFlow::Callback { processed },
                        SsoAction::AskCallback,
                    ),
                    Err(e) => (SsoFlow::Over, SsoAction::Fail(e)),
                }
            },
            (SsoFlow::Decision { acs_url }, SsoEvent::Decided(result)) => match result {
                Err(e) => (SsoFlow::Over, SsoAction::Fail(e)),
                Ok(SsoNext::Deliver(issued)) => {
                    let page = post_issued_response(&issued, acs_url.as_str(), relay_state);
                    (SsoFlow::Over, SsoAction::Post { page })
                },
                Ok(SsoNext::Ask(disposition)) => (
                    SsoFlow::Subject { acs_url },
                    SsoAction::Ask { disposition },
                ),
            },
            (SsoFlow::Subject { acs_url }, SsoEvent::Reported(result)) => match result {
                Err(e) => (SsoFlow::Over, SsoAction::Fail(e)),
                Ok(reported) => (SsoFlow::Answer { acs_url }, SsoAction::Answer { reported }),
            },
            (SsoFlow::Answer { acs_url }, SsoEvent::Answered(result)) => match result {
                Err(e) => (SsoFlow::Over, SsoAction::Fail(e)),
                Ok(SsoReply::Deliver(issued)) => {
                    let page = post_issued_response(&issued, acs_url.as_str(), relay_state);
                    (SsoFlow::Over, SsoAction::Post { page })
                },
                Ok(SsoReply::Application(own)) => (SsoFlow::Over, SsoAction::Own(own)),
            },
            (SsoFlow::Callback { processed }, SsoEvent::CallbackReported(result)) => match result {
                Err(e) => (SsoFlow::Over, SsoAction::Fail(e)),
                Ok(reported) => {
                    let acs_url = processed.acs_url.clone();
                    (
                        SsoFlow::CallbackAnswer { acs_url },
                        SsoAction::AnswerCallback { processed, reported },
                    )
                },
            },
            (SsoFlow::CallbackAnswer { acs_url }, SsoEvent::CallbackAnswered(result)) => {
                match result {
                    Err(e) => (SsoFlow::Over, SsoAction::Fail(e)),
                    Ok(xml) => {
                        let page = post_encode(xml.as_str(), acs_url.as_str(), relay_state);
                        (SsoFlow::Over, SsoAction::Post { page })
                    },
                }
            },
            _ => unexpected(),
        }
    }
}

/// Whether a single sign-on went through some events from its beginning.
pub open spec fn is_sso_run<T>(
    setup: SsoSetup,
    relay_state: Option<Seq<char>>,
    flows: Seq<SsoFlow>,
    events: Seq<SsoEvent<T>>,
    actions: Seq<SsoAction<T>>,
) -> bool {
    &&& flows.len() == events.len() + 1
    &&& actions.len() == events.len()
    &&& flows[0] is Request
    &&& forall|i: int|
        0 <= i < events.len() ==> sso_step(
            setup,
            relay_state,
            flows[i],
            #[trigger] events[i],
            flows[i + 1],
            actions[i],
        )
}

/// Whether a request was admitted at some time before `end`.
pub open spec fn was_admitted<T>(flows: Seq<SsoFlow>, events: Seq<SsoEvent<T>>, end: int) -> bool {
    exists|t: int|
        {
            &&& 0 <= t < end
            &&& flows[t] matches SsoFlow::Trust { request }
            &&& #[trigger] events[t] matches SsoEvent::Established { entity, redirect, xml }
            &&& admission(
                opt_text(request.issuer),
                entity,
                redirect,
                xml,
                request.id@,
                request.has_signature,
            ) is Ok
        }
}

/// Whether a flow is one that only an admitted request comes to.
pub open spec fn is_past_admission(flow: SsoFlow) -> bool {
    !(flow is Request) && !(flow is Trust) && !(flow is Over)
}

proof fn lemma_was_admitted<T>(
    setup: SsoSetup,
    relay_state: Option<Seq<char>>,
    flows: Seq<SsoFlow>,
    events: Seq<SsoEvent<T>>,
    actions: Seq<SsoAction<T>>,
    k: int,
)
    requires
        is_sso_run(setup, relay_state, flows, events, actions),
        0 <= k < flows.len(),
        is_past_admission(flows[k]),
    ensures
        was_admitted(flows, events, k),
    decreases k,
{
    let i = k - 1;
    assert(sso_step(setup, relay_state, flows[i], events[i], flows[i + 1], actions[i]));
    if flows[i] is Trust {
        assert(events[i] is Established);
        assert(was_admitted(flows, events, k));
    } else {
        lemma_was_admitted(setup, relay_state, flows, events, actions, i);
        let t = choose|t: int|
            {
                &&& 0 <= t < i
                &&& flows[t] matches SsoFlow::Trust { request }
                &&& #[trigger] events[t] matches SsoEvent::Established { entity, redirect, xml }
                &&& admission(
                    opt_text(request.issuer),
                    entity,
                    redirect,
                    xml,
                    request.id@,
                    request.has_signature,
                ) is Ok
            };
        assert(events[t] is Established);
        assert(was_admitted(flows, events, k));
    }
}

/// Whether something is done for a request: anything but finding out who sent
/// it, and answering with an error.
pub open spec fn acts_for<T>(action: SsoAction<T>) -> bool {
    !(action is Establish) && !(action is Process) && !(action is Fail)
}

/// Nothing is done for a request that was not admitted: whatever comes in, the
/// engine is not asked, the application is not asked and no response is sent
/// before the issuer of the request was found to be a trusted service provider
/// and every signature on it passed.
pub proof fn law_nothing_is_done_for_strangers<T>(
    setup: SsoSetup,
    relay_state: Option<Seq<char>>,
    flows: Seq<SsoFlow>,
    events: Seq<SsoEvent<T>>,
    actions: Seq<SsoAction<T>>,
    i: int,
)
    requires
        is_sso_run(setup, relay_state, flows, events, actions),
        0 <= i < actions.len(),
        acts_for(actions[i]),
    ensures
        was_admitted(flows, events, i),
{
    assert(sso_step(setup, relay_state, flows[i], events[i], flows[i + 1], actions[i]));
    lemma_was_admitted(setup, relay_state, flows, events, actions, i);
}

/// The application is only asked to authenticate where the engine decided so: a
/// refusal is delivered without asking.
pub proof fn law_asked_only_where_decided<T>(
    setup: SsoSetup,
    relay_state: Option<Seq<char>>,
    flows: Seq<SsoFlow>,
    events: Seq<SsoEvent<T>>,
    actions: Seq<SsoAction<T>>,
    i: int,
)
    requires
        is_sso_run(setup, relay_state, flows, events, actions),
        0 <= i < actions.len(),
    ensures
        actions[i] matches SsoAction::Ask { disposition } ==> {
            &&& events[i] matches SsoEvent::Decided(result)
            &&& result matches Ok(SsoNext::Ask(decided))
            &&& disposition == decided
        },
        events[i] matches SsoEvent::Decided(result) ==> (result matches Ok(SsoNext::Deliver(_))
            ==> flows[i + 1] is Over),
{
    assert(sso_step(setup, relay_state, flows[i], events[i], flows[i + 1], actions[i]));
}

} // verus!
