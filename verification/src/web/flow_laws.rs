//! What each step of the flows does, told of what came in.

use super::artifact::{ArtifactLookup, ArtifactResolve};
use super::artifact_flow::{artifact_step, ArtifactAction, ArtifactEvent, ArtifactFlow};
use super::config::IdpConfig;
use super::error::SamlActixErrorView;
use super::laws::{
    are_all_for, is_rightly_signed, law_admitted_only_from_the_trusted,
    law_artifact_is_resolved_for_cause, law_logout_is_let_through_for_cause,
};
use super::logout::{LogoutRequest, NameIdOrEncryptedId, SessionParticipant};
use super::messages::{
    answer_xml, artifact_response_xml, logout_request_xml, soap_xml, success_status,
};
use super::post::post_page;
use super::signature::{RedirectSignature, XmlSignatures};
use super::slo_flow::{all_to_notify, slo_step, SloAction, SloEvent, SloFlow};
use super::sso::{AuthnCallbackResult, AuthnSubjectResult, SsoNext, SsoReply};
use super::sso_flow::{sso_step, AuthnRequestFacts, SsoAction, SsoEvent, SsoFlow, SsoSetup};
use crate::digest::is_new_id;
use crate::saml::error::ProfileError;
use crate::saml::metadata::{EntityDescriptor, SpSsoDescriptor};
use crate::saml::request::ProcessedAuthnRequest;
use crate::saml::time::Instant;
use crate::text::{decimal, opt_text, texts};
use vstd::prelude::*;
use vstd::utf8::encode_utf8;

verus! {

/// A logout message is told by its name: a request is read on, a response is
/// acknowledged, anything else is refused as not for the endpoint.
pub proof fn law_logout_message_is_told_by_its_name(
    config: IdpConfig,
    now: Instant,
    name: String,
    next: SloFlow,
    action: SloAction,
)
    requires
        slo_step(config, now, SloFlow::Name, SloEvent::Named(name), next, action),
    ensures
        action is Parse <==> name@ == "LogoutRequest"@,
        action is Acknowledge <==> name@ == "LogoutResponse"@,
        action matches SloAction::Acknowledge { text } ==> text@
            == "Logout propagation acknowledged"@,
        name@ != "LogoutRequest"@ && name@ != "LogoutResponse"@ ==> (action matches SloAction::Fail(
            e,
        ) && e@ is UnsupportedBinding),
{
    reveal_strlit("LogoutRequest");
    reveal_strlit("LogoutResponse");
    assert("LogoutRequest"@.len() == 13);
    assert("LogoutResponse"@.len() == 14);
}

/// A logout goes on exactly where the request names its issuer, the issuer is
/// trusted, it is for this endpoint, it is rightly signed and its NameID is not
/// encrypted. It goes on for its issuer, as authenticated.
pub proof fn law_authentic_logout_goes_on(
    config: IdpConfig,
    now: Instant,
    request: LogoutRequest,
    sp: Option<SpSsoDescriptor>,
    redirect: Option<RedirectSignature>,
    xml: XmlSignatures,
    next: SloFlow,
    action: SloAction,
)
    requires
        slo_step(
            config,
            now,
            SloFlow::Trust { request },
            SloEvent::Established { sp, redirect, xml },
            next,
            action,
        ),
    ensures
        action is Validate <==> {
            &&& request.issuer is Some
            &&& sp is Some
            &&& request.destination is None || config.slo_url@.len() == 0
                || request.destination->0@ == config.slo_url@
            &&& is_rightly_signed(redirect, xml, request.id@, request.has_signature)
            &&& request.name_id is NameId
        },
        action matches SloAction::Validate { requester, authenticated } ==> {
            &&& requester@ == request.issuer->0@
            &&& authenticated
            &&& next == (SloFlow::Validation { request })
        },
        !(action is Validate) ==> (action matches SloAction::Fail(e) && e@ is Profile),
{
    law_logout_is_let_through_for_cause(config.slo_url@, request, redirect, xml, sp is Some);
}

/// A logout that was let through takes sessions exactly where it is timely and
/// new: those of the subject and the indexes that it names, for its issuer.
pub proof fn law_valid_logout_takes_its_sessions(
    config: IdpConfig,
    now: Instant,
    request: LogoutRequest,
    result: Result<(), ProfileError>,
    next: SloFlow,
    action: SloAction,
)
    requires
        slo_step(
            config,
            now,
            SloFlow::Validation { request },
            SloEvent::Validated(result),
            next,
            action,
        ),
        request.issuer is Some,
        request.name_id is NameId,
    ensures
        action is Take <==> result is Ok,
        action matches SloAction::Take { requester, name_id, session_indexes } ==> {
            &&& requester@ == request.issuer->0@
            &&& request.name_id matches NameIdOrEncryptedId::NameId(n) && name_id@ == n@
            &&& texts(session_indexes@) == texts(request.session_indexes@)
            &&& next == (SloFlow::Sessions { request })
        },
        result matches Err(e) ==> (action matches SloAction::Fail(f) && f@
            == SamlActixErrorView::Profile(e@)),
{
}

/// When sessions were taken, every participant but the one that asked gets a
/// logout request of this identity provider, in the terms that the participant
/// knows, and the browser is told that the logout is done.
pub proof fn law_logout_is_passed_on(
    config: IdpConfig,
    now: Instant,
    request: LogoutRequest,
    sessions: Vec<Vec<SessionParticipant>>,
    next: SloFlow,
    action: SloAction,
    k: int,
)
    requires
        slo_step(
            config,
            now,
            SloFlow::Sessions { request },
            SloEvent::Taken(Ok(sessions)),
            next,
            action,
        ),
        request.issuer is Some,
    ensures
        action matches SloAction::Reply { requests, page } && {
            let others = all_to_notify(sessions@, request.issuer->0@);
            &&& requests@.len() == others.len()
            &&& 0 <= k < others.len() ==> {
                &&& requests@[k].entity_id@ == others[k].entity_id@
                &&& exists|id: Seq<char>|
                    is_new_id(id) && requests@[k].xml@ == #[trigger] logout_request_xml(
                        config.entity_id@,
                        others[k].name_id@,
                        opt_text(others[k].session_index),
                        id,
                        now,
                    )
            }
            &&& exists|id: Seq<char>|
                is_new_id(id) && page@ == "<html><body><p>Logout completed</p><!-- "@ + decimal(
                    encode_utf8(
                        #[trigger] answer_xml(
                            "samlp:LogoutResponse"@,
                            config.entity_id@,
                            request.id@,
                            success_status(),
                            Seq::empty(),
                            id,
                            now,
                        ),
                    ).len(),
                ) + " --></body></html>"@
        },
{
    let others = all_to_notify(sessions@, request.issuer->0@);
    if let SloAction::Reply { requests, page } = action {
        if 0 <= k < others.len() {
            assert(super::messages::passes_on(config.entity_id@, others[k], now, requests@[k]));
        }
    }
}

/// An artifact is looked up exactly for a request that names its issuer, whose
/// issuer is trusted, and each XML signature of which is valid and for it; for
/// that issuer, and no other artifact than the one it names.
pub proof fn law_authentic_resolve_goes_on(
    config: IdpConfig,
    now: Instant,
    resolve: ArtifactResolve,
    sp: Option<SpSsoDescriptor>,
    xml: XmlSignatures,
    next: ArtifactFlow,
    action: ArtifactAction,
)
    requires
        artifact_step(
            config,
            now,
            ArtifactFlow::Trust { resolve },
            ArtifactEvent::Established { sp, xml },
            next,
            action,
        ),
    ensures
        action is LookUp <==> resolve.issuer is Some && sp is Some && are_all_for(xml, resolve.id@),
        action matches ArtifactAction::LookUp { artifact, requester } ==> {
            &&& artifact@ == resolve.artifact@
            &&& requester@ == resolve.issuer->0@
            &&& next == (ArtifactFlow::Lookup { resolve })
        },
        !(action is LookUp) ==> (action matches ArtifactAction::Fail(e) && e@ is Profile),
{
    law_artifact_is_resolved_for_cause(resolve, xml, sp is Some);
}

/// A resolution is answered with what was found, as it is, in answer to the
/// request; where nothing was found, with the reason.
pub proof fn law_resolve_is_answered_with_what_was_found(
    config: IdpConfig,
    now: Instant,
    resolve: ArtifactResolve,
    lookup: ArtifactLookup,
    next: ArtifactFlow,
    action: ArtifactAction,
)
    requires
        artifact_step(
            config,
            now,
            ArtifactFlow::Lookup { resolve },
            ArtifactEvent::LookedUp(lookup),
            next,
            action,
        ),
    ensures
        action matches ArtifactAction::Reply { soap } && exists|
            id: Seq<char>,
            answer: Result<Seq<char>, Seq<char>>,
        |
            {
                &&& is_new_id(id)
                &&& soap@ == soap_xml(
                    #[trigger] artifact_response_xml(
                        config.entity_id@,
                        resolve.id@,
                        answer,
                        id,
                        now,
                    ),
                )
                &&& lookup matches ArtifactLookup::Found(xml) ==> answer == Ok::<
                    Seq<char>,
                    Seq<char>,
                >(xml@)
                &&& lookup is NotFound ==> answer == Err::<Seq<char>, Seq<char>>(
                    "artifact not found or already consumed"@,
                )
                &&& lookup is NotConfigured ==> answer == Err::<Seq<char>, Seq<char>>(
                    "artifact resolution not configured"@,
                )
                &&& lookup matches ArtifactLookup::Failed(e) ==> answer == Err::<
                    Seq<char>,
                    Seq<char>,
                >("artifact store error: "@ + e@)
            },
{
    if let ArtifactAction::Reply { soap } = action {
        let answer = super::artifact_flow::answer_of(lookup);
        let id = choose|id: Seq<char>| #[trigger]
            is_new_id(id) && soap@ == soap_xml(
                artifact_response_xml(config.entity_id@, resolve.id@, answer, id, now),
            );
        assert(soap@ == soap_xml(
            artifact_response_xml(config.entity_id@, resolve.id@, answer, id, now),
        ));
    }
}

/// A request for single sign-on goes on exactly where its issuer is named and
/// trusted with a SAML 2.0 role, and it is rightly signed or not signed at all;
/// it goes on as verified exactly where it is signed.
pub proof fn law_authentic_request_goes_on<T>(
    setup: SsoSetup,
    relay_state: Option<Seq<char>>,
    request: AuthnRequestFacts,
    entity: Option<EntityDescriptor>,
    redirect: Option<RedirectSignature>,
    xml: XmlSignatures,
    next: SsoFlow,
    action: SsoAction<T>,
)
    requires
        sso_step(
            setup,
            relay_state,
            SsoFlow::Trust { request },
            SsoEvent::<T>::Established { entity, redirect, xml },
            next,
            action,
        ),
    ensures
        ({
            let signed = redirect is Some || request.has_signature;
            &&& action is Process <==> {
                &&& request.issuer is Some
                &&& entity is Some
                &&& exists|k: int|
                    0 <= k < entity->0.sp_sso@.len() && texts(
                        (#[trigger] entity->0.sp_sso@[k]).protocols@,
                    ).contains("urn:oasis:names:tc:SAML:2.0:protocol"@)
                &&& signed ==> is_rightly_signed(
                    redirect,
                    xml,
                    request.id@,
                    request.has_signature,
                )
            }
            &&& action matches SsoAction::Process { verified } ==> verified == signed && next == (
            SsoFlow::Processing { entity: entity->0 })
            &&& !(action is Process) ==> (action matches SsoAction::Fail(e) && e@ is Profile)
        }),
{
    law_admitted_only_from_the_trusted(
        opt_text(request.issuer),
        entity,
        redirect,
        xml,
        request.id@,
        request.has_signature,
    );
}

/// A validated request goes to the engine where the application has set up all
/// that it takes, with the request and the metadata of its sender; else to the
/// application, where it decides itself; else it fails for want of
/// configuration.
pub proof fn law_request_goes_where_it_is_set_up<T>(
    setup: SsoSetup,
    relay_state: Option<Seq<char>>,
    entity: EntityDescriptor,
    result: Result<ProcessedAuthnRequest, ProfileError>,
    next: SsoFlow,
    action: SsoAction<T>,
)
    requires
        sso_step(
            setup,
            relay_state,
            SsoFlow::Processing { entity },
            SsoEvent::<T>::Processed(result),
            next,
            action,
        ),
        super::config::saml2_role(Some(entity)) is Some,
    ensures
        action is Decide <==> result is Ok && setup.subject_callback && setup.engine,
        action is AskCallback <==> result is Ok && !(setup.subject_callback && setup.engine)
            && setup.callback,
        action matches SsoAction::Decide { params } ==> {
            let role = super::config::saml2_role(Some(entity))->0;
            &&& params.processed == result->Ok_0
            &&& params.sp_entity == Some(entity)
            &&& params.sp_sso.want_assertions_signed == role.want_assertions_signed
            &&& params.sp_sso.services() == role.services()
            &&& texts(params.sp_sso.protocols@) == texts(role.protocols@)
        },
        action is AskCallback ==> next == (SsoFlow::Callback { processed: result->Ok_0 }),
        action matches SsoAction::Fail(e) ==> (result is Err ==> e@ == SamlActixErrorView::Profile(
            result->Err_0@,
        )) && (result is Ok ==> e@ == SamlActixErrorView::Configuration(
            "no AuthnCallback registered for IdP SSO"@,
        )),
{
}

/// What is issued or refused is posted where the request has it go, with the
/// relay state as it came; the application's own reply is sent as it is; and a
/// fault is passed on.
pub proof fn law_answer_is_posted_where_it_goes<T>(
    setup: SsoSetup,
    relay_state: Option<Seq<char>>,
    acs_url: String,
    decided: Result<SsoNext, super::error::SamlActixError>,
    answered: Result<SsoReply<T>, super::error::SamlActixError>,
    called_back: Result<String, super::error::SamlActixError>,
    next: SsoFlow,
    action: SsoAction<T>,
)
    ensures
        sso_step(
            setup,
            relay_state,
            SsoFlow::Decision { acs_url },
            SsoEvent::Decided(decided),
            next,
            action,
        ) ==> match decided {
            Ok(SsoNext::Deliver(issued)) => action matches SsoAction::Post { page } && page@
                == post_page(issued.xml@, acs_url@, relay_state),
            Ok(SsoNext::Ask(d)) => action matches SsoAction::Ask { disposition } && disposition
                == d && next == (SsoFlow::Subject { acs_url }),
            Err(e) => action matches SsoAction::Fail(f) && f@ == e@,
        },
        sso_step(
            setup,
            relay_state,
            SsoFlow::Answer { acs_url },
            SsoEvent::Answered(answered),
            next,
            action,
        ) ==> match answered {
            Ok(SsoReply::Deliver(issued)) => action matches SsoAction::Post { page } && page@
                == post_page(issued.xml@, acs_url@, relay_state),
            Ok(SsoReply::Application(own)) => action == SsoAction::<T>::Own(own),
            Err(e) => action matches SsoAction::Fail(f) && f@ == e@,
        },
        sso_step(
            setup,
            relay_state,
            SsoFlow::CallbackAnswer { acs_url },
            SsoEvent::CallbackAnswered(called_back),
            next,
            action,
        ) ==> match called_back {
            Ok(xml) => action matches SsoAction::Post { page } && page@ == post_page(
                xml@,
                acs_url@,
                relay_state,
            ),
            Err(e) => action matches SsoAction::Fail(f) && f@ == e@,
        },
{
}

/// What the application reports is answered for the request that it was asked
/// about: the response goes where that request has it go.
pub proof fn law_report_is_answered_for_the_request<T>(
    setup: SsoSetup,
    relay_state: Option<Seq<char>>,
    acs_url: String,
    processed: ProcessedAuthnRequest,
    reported: AuthnSubjectResult<T>,
    decided: AuthnCallbackResult,
    next: SsoFlow,
    action: SsoAction<T>,
)
    ensures
        sso_step(
            setup,
            relay_state,
            SsoFlow::Subject { acs_url },
            SsoEvent::Reported(Ok(reported)),
            next,
            action,
        ) ==> next == (SsoFlow::Answer { acs_url }) && (action matches SsoAction::Answer {
            reported: r,
        } && r == reported),
        sso_step(
            setup,
            relay_state,
            SsoFlow::Callback { processed },
            SsoEvent::<T>::CallbackReported(Ok(decided)),
            next,
            action,
        ) ==> {
            &&& next matches SsoFlow::CallbackAnswer { acs_url: url }
            &&& url@ == processed.acs_url@
            &&& action matches SsoAction::AnswerCallback { processed: p, reported: r }
            &&& p == processed
            &&& r == decided
        },
{
}

/// An event that a flow does not wait for ends it with an error, and nothing is
/// done for it.
pub proof fn law_unawaited_event_ends_the_flow<T>(
    setup: SsoSetup,
    relay_state: Option<Seq<char>>,
    config: IdpConfig,
    now: Instant,
    sso: (SsoFlow, SsoEvent<T>, SsoFlow, SsoAction<T>),
    slo: (SloFlow, SloEvent, SloFlow, SloAction),
    artifact: (ArtifactFlow, ArtifactEvent, ArtifactFlow, ArtifactAction),
)
    requires
        sso_step(setup, relay_state, sso.0, sso.1, sso.2, sso.3),
        slo_step(config, now, slo.0, slo.1, slo.2, slo.3),
        artifact_step(config, now, artifact.0, artifact.1, artifact.2, artifact.3),
    ensures
        ({
            let (flow, event, next, action) = sso;
            let awaited = {
                ||| flow is Request && event is Parsed
                ||| flow is Trust && event is Established
                ||| flow is Processing && event is Processed
                ||| flow is Decision && event is Decided
                ||| flow is Subject && event is Reported
                ||| flow is Answer && event is Answered
                ||| flow is Callback && event is CallbackReported
                ||| flow is CallbackAnswer && event is CallbackAnswered
            };
            !awaited ==> next is Over && (action matches SsoAction::Fail(e) && e@
                == SamlActixErrorView::Internal("unexpected event"@))
        }),
        ({
            let (flow, event, next, action) = slo;
            let awaited = {
                ||| flow is Name && event is Named
                ||| flow is Request && event is Parsed
                ||| flow is Trust && event is Established
                ||| flow is Validation && event is Validated
                ||| flow is Sessions && event is Taken
            };
            !awaited ==> next is Over && (action matches SloAction::Fail(e) && e@
                == SamlActixErrorView::Internal("unexpected event"@))
        }),
        ({
            let (flow, event, next, action) = artifact;
            let awaited = {
                ||| flow is Request && event is Parsed
                ||| flow is Trust && event is Established
                ||| flow is Lookup && event is LookedUp
            };
            !awaited ==> next is Over && (action matches ArtifactAction::Fail(e)
                && e@ == SamlActixErrorView::Internal("unexpected event"@))
        }),
{
}

/// A message that is parsed is looked into further: what is trusted for its
/// issuer is found, and its signatures are verified.
pub proof fn law_parsed_message_is_looked_into<T>(
    setup: SsoSetup,
    relay_state: Option<Seq<char>>,
    config: IdpConfig,
    now: Instant,
    request: AuthnRequestFacts,
    logout: LogoutRequest,
    resolve: ArtifactResolve,
    sso: (SsoFlow, SsoAction<T>),
    slo: (SloFlow, SloAction),
    artifact: (ArtifactFlow, ArtifactAction),
)
    requires
        sso_step(
            setup,
            relay_state,
            SsoFlow::Request,
            SsoEvent::<T>::Parsed(request),
            sso.0,
            sso.1,
        ),
        slo_step(config, now, SloFlow::Request, SloEvent::Parsed(logout), slo.0, slo.1),
        artifact_step(
            config,
            now,
            ArtifactFlow::Request,
            ArtifactEvent::Parsed(resolve),
            artifact.0,
            artifact.1,
        ),
    ensures
        sso.0 == (SsoFlow::Trust { request }),
        sso.1 matches SsoAction::Establish { issuer } && opt_text(issuer) == opt_text(
            request.issuer,
        ),
        slo.0 == (SloFlow::Trust { request: logout }),
        slo.1 matches SloAction::Establish { issuer } && opt_text(issuer) == opt_text(
            logout.issuer,
        ),
        artifact.0 == (ArtifactFlow::Trust { resolve }),
        artifact.1 matches ArtifactAction::Establish { issuer } && opt_text(issuer) == opt_text(
            resolve.issuer,
        ),
{
}

} // verus!
