//! A single sign-on from its beginning to its end, with the engine's part in it.
//!
//! The flow says what is done next; the engine decides and answers. A run ties
//! the two: what comes back as decided or answered is what the engine makes of
//! the request that the flow had it decide on.

use super::config::IdpConfig;
use super::error::SamlActixErrorView;
use super::signing::{web_signed_text, IdpSigningContext};
use super::sso::{
    admission, callback_answers, disposition_at, may_reply, next_step, SsoNext, SsoReply,
};
use super::sso_flow::{
    is_sso_run, sso_fails, sso_posts, sso_step, SsoAction, SsoEvent, SsoFlow, SsoSetup,
};
use crate::digest::is_new_id;
use crate::idp::assertion_store::AssertionStore;
use crate::idp::ident::db::NameIdConstructor;
use crate::idp::orchestrator::denial::Denial;
use crate::idp::orchestrator::params::{
    DispositionView, EstablishedSessionView, IssuedResponseView, ResponseParams,
};
use crate::idp::orchestrator::release::AttributeRelease;
use crate::idp::orchestrator::respond::{may_deny, ResponseEngine};
use crate::saml::error::ProfileErrorView;
use crate::saml::time::Instant;
use crate::text::opt_text;
use vstd::prelude::*;

verus! {

/// What the engine was last had to decide on before step `end`: the request and
/// the metadata.
pub open spec fn params_before<T>(actions: Seq<SsoAction<T>>, end: int) -> Option<ResponseParams>
    decreases end,
{
    if end <= 0 {
        None
    } else {
        match actions[end - 1] {
            SsoAction::Decide { params } => Some(params),
            _ => params_before(actions, end - 1),
        }
    }
}

/// Whether the engine did its part at one step: it decides on what the flow had
/// it decide on, at the moment `now` and knowing of `session`, and it answers
/// that same request with what the application reported. Other requests may be
/// answered in between: `answering` is the engine as it is by that time, and
/// `after` what the answer leaves of it.
pub open spec fn engine_took_part<
    T,
    R: AttributeRelease + ?Sized,
    N: NameIdConstructor + ?Sized,
    A: AssertionStore + ?Sized,
    F: Fn(&str) -> Result<String, String>,
>(
    flow: SsoFlow,
    event: SsoEvent<T>,
    actions: Seq<SsoAction<T>>,
    i: int,
    engine: ResponseEngine<R, N, A, F>,
    session: Option<EstablishedSessionView>,
    now: Instant,
    answering: ResponseEngine<R, N, A, F>,
    after: ResponseEngine<R, N, A, F>,
) -> bool {
    match (flow, event) {
        (SsoFlow::Decision { .. }, SsoEvent::Decided(result)) => {
            &&& params_before(actions, i) matches Some(p)
            &&& next_step(engine, p, disposition_at(engine, p, session, now), result)
        },
        (SsoFlow::Answer { .. }, SsoEvent::Answered(result)) => {
            &&& params_before(actions, i) matches Some(p)
            &&& actions[i - 1] matches SsoAction::Answer { reported }
            &&& may_reply(answering, p, reported, result, after)
        },
        _ => true,
    }
}

/// Whether a single sign-on went through some events from its beginning, with
/// the engine doing its part.
pub open spec fn is_engine_run<
    T,
    R: AttributeRelease + ?Sized,
    N: NameIdConstructor + ?Sized,
    A: AssertionStore + ?Sized,
    F: Fn(&str) -> Result<String, String>,
>(
    setup: SsoSetup,
    relay_state: Option<Seq<char>>,
    flows: Seq<SsoFlow>,
    events: Seq<SsoEvent<T>>,
    actions: Seq<SsoAction<T>>,
    engine: ResponseEngine<R, N, A, F>,
    session: Option<EstablishedSessionView>,
    now: Instant,
    answering: ResponseEngine<R, N, A, F>,
    after: ResponseEngine<R, N, A, F>,
) -> bool {
    &&& is_sso_run(setup, relay_state, flows, events, actions)
    &&& now.in_range()
    &&& forall|i: int|
        0 <= i < events.len() ==> engine_took_part(
            flows[i],
            #[trigger] events[i],
            actions,
            i,
            engine,
            session,
            now,
            answering,
            after,
        )
}

/// How far a flow has come.
pub open spec fn stage(flow: SsoFlow) -> int {
    match flow {
        SsoFlow::Request => 0,
        SsoFlow::Trust { .. } => 1,
        SsoFlow::Processing { .. } => 2,
        SsoFlow::Decision { .. } => 3,
        SsoFlow::Subject { .. } => 4,
        SsoFlow::Answer { .. } => 5,
        SsoFlow::Callback { .. } => 6,
        SsoFlow::CallbackAnswer { .. } => 7,
        SsoFlow::Over => 8,
    }
}

/// A single sign-on only goes on, and does each thing once: every step leads
/// further, until it is over.
pub proof fn law_a_run_goes_on<T>(
    setup: SsoSetup,
    relay_state: Option<Seq<char>>,
    flows: Seq<SsoFlow>,
    events: Seq<SsoEvent<T>>,
    actions: Seq<SsoAction<T>>,
    i: int,
    j: int,
)
    requires
        is_sso_run(setup, relay_state, flows, events, actions),
        0 <= i < j < flows.len(),
    ensures
        stage(flows[i]) < stage(flows[j]) || (flows[i] is Over && flows[j] is Over),
    decreases j - i,
{
    let k = j - 1;
    assert(sso_step(setup, relay_state, flows[k], events[k], flows[k + 1], actions[k]));
    if i < k {
        law_a_run_goes_on(setup, relay_state, flows, events, actions, i, k);
    }
}

/// What the flow waits for the engine's decision on is what it had it decide on
/// last, and the response goes where that request has it go.
proof fn lemma_decision<T>(
    setup: SsoSetup,
    relay_state: Option<Seq<char>>,
    flows: Seq<SsoFlow>,
    events: Seq<SsoEvent<T>>,
    actions: Seq<SsoAction<T>>,
    i: int,
)
    requires
        is_sso_run(setup, relay_state, flows, events, actions),
        0 <= i < flows.len(),
        flows[i] is Decision || flows[i] is Subject || flows[i] is Answer,
    ensures
        params_before(actions, i) matches Some(p) && p.processed.acs_url@ == match flows[i] {
            SsoFlow::Decision { acs_url } => acs_url@,
            SsoFlow::Subject { acs_url } => acs_url@,
            SsoFlow::Answer { acs_url } => acs_url@,
            _ => Seq::empty(),
        },
        flows[i] is Answer ==> actions[i - 1] is Answer,
    decreases i,
{
    let k = i - 1;
    assert(sso_step(setup, relay_state, flows[k], events[k], flows[k + 1], actions[k]));
    if !(flows[i] is Decision) {
        lemma_decision(setup, relay_state, flows, events, actions, k);
    }
}

/// Whether a single sign-on ends at step `i` with the response that refuses a
/// request: signed and posted to where the request has it go, or with the fault
/// that kept it from being signed.
pub open spec fn ends_in_denial<
    T,
    R: AttributeRelease + ?Sized,
    N: NameIdConstructor + ?Sized,
    A: AssertionStore + ?Sized,
    F: Fn(&str) -> Result<String, String>,
>(
    relay_state: Option<Seq<char>>,
    flow: SsoFlow,
    action: SsoAction<T>,
    engine: ResponseEngine<R, N, A, F>,
    p: ResponseParams,
    denial: Denial,
) -> bool {
    exists|
        now: Instant,
        response_id: Seq<char>,
        issued: Result<IssuedResponseView, ProfileErrorView>,
    |
        {
            &&& now.in_range()
            &&& is_new_id(response_id)
            &&& #[trigger] may_deny(
                *engine.signer,
                engine.cert_der_b64@,
                engine.idp_entity_id@,
                p,
                denial,
                now,
                response_id,
                issued,
            )
            &&& match issued {
                Ok(r) => sso_posts(flow, action, r.xml, p.processed.acs_url@, relay_state),
                Err(error) => sso_fails(flow, action, SamlActixErrorView::Profile(error)),
            }
        }
}

/// A request that the engine refuses is answered without asking: where it
/// decides on a refusal, the application is asked nothing in the whole run, and
/// the run ends with that very refusal, posted to where the request has it go.
pub proof fn law_refused_without_asking<
    T,
    R: AttributeRelease + ?Sized,
    N: NameIdConstructor + ?Sized,
    A: AssertionStore + ?Sized,
    F: Fn(&str) -> Result<String, String>,
>(
    setup: SsoSetup,
    relay_state: Option<Seq<char>>,
    flows: Seq<SsoFlow>,
    events: Seq<SsoEvent<T>>,
    actions: Seq<SsoAction<T>>,
    engine: ResponseEngine<R, N, A, F>,
    session: Option<EstablishedSessionView>,
    now: Instant,
    answering: ResponseEngine<R, N, A, F>,
    after: ResponseEngine<R, N, A, F>,
    i: int,
    p: ResponseParams,
    denial: Denial,
)
    requires
        is_engine_run(
            setup,
            relay_state,
            flows,
            events,
            actions,
            engine,
            session,
            now,
            answering,
            after,
        ),
        0 <= i < events.len(),
        flows[i] is Decision,
        events[i] is Decided,
        params_before(actions, i) == Some(p),
        disposition_at(engine, p, session, now) == (DispositionView::Deny { denial }),
    ensures
        ends_in_denial(relay_state, flows[i + 1], actions[i], engine, p, denial),
        forall|j: int|
            0 <= j < actions.len() ==> !(#[trigger] actions[j] is Ask) && !(actions[j] is Answer)
                && !(actions[j] is AskCallback),
        forall|j: int| i < j < actions.len() ==> #[trigger] actions[j] is Fail,
{
    assert(sso_step(setup, relay_state, flows[i], events[i], flows[i + 1], actions[i]));
    lemma_decision(setup, relay_state, flows, events, actions, i);
    let result = events[i]->Decided_0;
    assert(engine_took_part(
        flows[i],
        events[i],
        actions,
        i,
        engine,
        session,
        now,
        answering,
        after,
    ));
    let (at, response_id, issued) = choose|
        at: Instant,
        response_id: Seq<char>,
        issued: Result<IssuedResponseView, ProfileErrorView>,
    |
        {
            &&& at.in_range()
            &&& is_new_id(response_id)
            &&& #[trigger] may_deny(
                *engine.signer,
                engine.cert_der_b64@,
                engine.idp_entity_id@,
                p,
                denial,
                at,
                response_id,
                issued,
            )
            &&& match issued {
                Ok(i) => result matches Ok(SsoNext::Deliver(r)) && r@ == i,
                Err(error) => result matches Err(w) && w@ == SamlActixErrorView::Profile(error),
            }
        };
    assert(may_deny(
        *engine.signer,
        engine.cert_der_b64@,
        engine.idp_entity_id@,
        p,
        denial,
        at,
        response_id,
        issued,
    ));
    assert(flows[i + 1] is Over);
    assert forall|j: int| 0 <= j < actions.len() implies !(#[trigger] actions[j] is Ask) && !(
    actions[j] is Answer) && !(actions[j] is AskCallback) && (i < j ==> actions[j] is Fail) by {
        assert(sso_step(setup, relay_state, flows[j], events[j], flows[j + 1], actions[j]));
        if j < i {
            law_a_run_goes_on(setup, relay_state, flows, events, actions, j, i);
            if j + 1 < i {
                law_a_run_goes_on(setup, relay_state, flows, events, actions, j + 1, i);
            }
        } else if i + 1 < j {
            law_a_run_goes_on(setup, relay_state, flows, events, actions, i + 1, j);
        }
    }
}

/// The application is asked to act on nothing but what the engine decided on the
/// request of the run, and never on a refusal.
pub proof fn law_asked_as_decided<
    T,
    R: AttributeRelease + ?Sized,
    N: NameIdConstructor + ?Sized,
    A: AssertionStore + ?Sized,
    F: Fn(&str) -> Result<String, String>,
>(
    setup: SsoSetup,
    relay_state: Option<Seq<char>>,
    flows: Seq<SsoFlow>,
    events: Seq<SsoEvent<T>>,
    actions: Seq<SsoAction<T>>,
    engine: ResponseEngine<R, N, A, F>,
    session: Option<EstablishedSessionView>,
    now: Instant,
    answering: ResponseEngine<R, N, A, F>,
    after: ResponseEngine<R, N, A, F>,
    i: int,
)
    requires
        is_engine_run(
            setup,
            relay_state,
            flows,
            events,
            actions,
            engine,
            session,
            now,
            answering,
            after,
        ),
        0 <= i < actions.len(),
        actions[i] is Ask,
    ensures
        params_before(actions, i) matches Some(p) && (actions[i] matches SsoAction::Ask {
            disposition,
        } && disposition@ == disposition_at(engine, p, session, now) && !(disposition@ is Deny)),
{
    assert(sso_step(setup, relay_state, flows[i], events[i], flows[i + 1], actions[i]));
    assert(engine_took_part(
        flows[i],
        events[i],
        actions,
        i,
        engine,
        session,
        now,
        answering,
        after,
    ));
}

/// What is sent in answer to what the application reported is what the engine
/// makes of it for the request of the run: its response, posted to where that
/// request has it go, or the application's own reply. It goes by what was
/// reported to the question that was asked.
pub proof fn law_answered_as_reported<
    T,
    R: AttributeRelease + ?Sized,
    N: NameIdConstructor + ?Sized,
    A: AssertionStore + ?Sized,
    F: Fn(&str) -> Result<String, String>,
>(
    setup: SsoSetup,
    relay_state: Option<Seq<char>>,
    flows: Seq<SsoFlow>,
    events: Seq<SsoEvent<T>>,
    actions: Seq<SsoAction<T>>,
    engine: ResponseEngine<R, N, A, F>,
    session: Option<EstablishedSessionView>,
    now: Instant,
    answering: ResponseEngine<R, N, A, F>,
    after: ResponseEngine<R, N, A, F>,
    i: int,
)
    requires
        is_engine_run(
            setup,
            relay_state,
            flows,
            events,
            actions,
            engine,
            session,
            now,
            answering,
            after,
        ),
        0 <= i < events.len(),
        flows[i] is Answer,
        events[i] is Answered,
    ensures
        ({
            &&& i >= 2
            &&& actions[i - 2] is Ask
            &&& params_before(actions, i) == params_before(actions, i - 2)
            &&& params_before(actions, i) matches Some(p)
            &&& events[i - 1] matches SsoEvent::Reported(Ok(reported))
            &&& events[i] matches SsoEvent::Answered(result)
            &&& may_reply(answering, p, reported, result, after)
            &&& match result {
                Ok(SsoReply::Deliver(issued)) => sso_posts(
                    flows[i + 1],
                    actions[i],
                    issued@.xml,
                    p.processed.acs_url@,
                    relay_state,
                ),
                Ok(SsoReply::Application(own)) => actions[i] == SsoAction::<T>::Own(own),
                Err(e) => sso_fails(flows[i + 1], actions[i], e@),
            }
        }),
{
    lemma_decision(setup, relay_state, flows, events, actions, i);
    assert(sso_step(setup, relay_state, flows[i], events[i], flows[i + 1], actions[i]));
    assert(engine_took_part(
        flows[i],
        events[i],
        actions,
        i,
        engine,
        session,
        now,
        answering,
        after,
    ));
    assert(sso_step(setup, relay_state, flows[i - 1], events[i - 1], flows[i], actions[i - 1]));
    assert(flows[i - 1] is Subject);
    assert(sso_step(setup, relay_state, flows[i - 2], events[i - 2], flows[i - 1], actions[i - 2]));
    assert(params_before(actions, i) == params_before(actions, i - 1));
    assert(params_before(actions, i - 1) == params_before(actions, i - 2));
}

/// Whether the sender of a request was admitted at some time before `end`, with
/// this metadata.
pub open spec fn was_admitted_as<T>(
    flows: Seq<SsoFlow>,
    events: Seq<SsoEvent<T>>,
    end: int,
    p: ResponseParams,
) -> bool {
    exists|t: int|
        {
            &&& 0 <= t < end
            &&& flows[t] matches SsoFlow::Trust { request }
            &&& #[trigger] events[t] matches SsoEvent::Established { entity, redirect, xml }
            &&& entity == p.sp_entity
            &&& admission(
                opt_text(request.issuer),
                entity,
                redirect,
                xml,
                request.id@,
                request.has_signature,
            ) is Ok
        }
}

/// The engine decides on nothing but the request of the run, as it was validated,
/// and with the metadata of the sender that was admitted.
pub proof fn law_decided_for_the_admitted<T>(
    setup: SsoSetup,
    relay_state: Option<Seq<char>>,
    flows: Seq<SsoFlow>,
    events: Seq<SsoEvent<T>>,
    actions: Seq<SsoAction<T>>,
    i: int,
    p: ResponseParams,
)
    requires
        is_sso_run(setup, relay_state, flows, events, actions),
        0 <= i < actions.len(),
        actions[i] == (SsoAction::<T>::Decide { params: p }),
    ensures
        was_admitted_as(flows, events, i, p),
        events[i] matches SsoEvent::Processed(Ok(processed)) && p.processed == processed,
{
    assert(sso_step(setup, relay_state, flows[i], events[i], flows[i + 1], actions[i]));
    assert(flows[i] is Processing);
    let t = i - 1;
    assert(sso_step(setup, relay_state, flows[t], events[t], flows[t + 1], actions[t]));
    assert(events[t] is Established);
}

/// Whether what the application decides itself is answered as configured, at
/// step `i`.
pub open spec fn callback_took_part<T, F: Fn(&str) -> Result<String, String>>(
    flow: SsoFlow,
    event: SsoEvent<T>,
    actions: Seq<SsoAction<T>>,
    i: int,
    config: IdpConfig,
    ctx: Option<&IdpSigningContext<F>>,
    client_address: Option<Seq<char>>,
    now: Instant,
    response_id: Seq<char>,
    assertion_id: Seq<char>,
) -> bool {
    match (flow, event) {
        (SsoFlow::CallbackAnswer { .. }, SsoEvent::CallbackAnswered(result)) => {
            &&& actions[i - 1] matches SsoAction::AnswerCallback { processed, reported }
            &&& callback_answers(
                config,
                ctx,
                processed,
                reported,
                client_address,
                now,
                response_id,
                assertion_id,
                web_signed_text(result),
            )
        },
        _ => true,
    }
}

/// Where the application decides itself, what is sent is the response to what it
/// reported of the request of the run, posted to where that request has it go.
pub proof fn law_callback_answers_the_request<T, F: Fn(&str) -> Result<String, String>>(
    setup: SsoSetup,
    relay_state: Option<Seq<char>>,
    flows: Seq<SsoFlow>,
    events: Seq<SsoEvent<T>>,
    actions: Seq<SsoAction<T>>,
    i: int,
    config: IdpConfig,
    ctx: Option<&IdpSigningContext<F>>,
    client_address: Option<Seq<char>>,
    now: Instant,
    response_id: Seq<char>,
    assertion_id: Seq<char>,
)
    requires
        is_sso_run(setup, relay_state, flows, events, actions),
        0 <= i < events.len(),
        flows[i] is CallbackAnswer,
        events[i] is CallbackAnswered,
        callback_took_part(
            flows[i],
            events[i],
            actions,
            i,
            config,
            ctx,
            client_address,
            now,
            response_id,
            assertion_id,
        ),
    ensures
        ({
            &&& i >= 2
            &&& events[i - 2] matches SsoEvent::Processed(Ok(processed))
            &&& events[i - 1] matches SsoEvent::CallbackReported(Ok(reported))
            &&& events[i] matches SsoEvent::CallbackAnswered(result)
            &&& callback_answers(
                config,
                ctx,
                processed,
                reported,
                client_address,
                now,
                response_id,
                assertion_id,
                web_signed_text(result),
            )
            &&& match result {
                Ok(xml) => sso_posts(
                    flows[i + 1],
                    actions[i],
                    xml@,
                    processed.acs_url@,
                    relay_state,
                ),
                Err(e) => sso_fails(flows[i + 1], actions[i], e@),
            }
        }),
{
    assert(sso_step(setup, relay_state, flows[i], events[i], flows[i + 1], actions[i]));
    assert(sso_step(setup, relay_state, flows[i - 1], events[i - 1], flows[i], actions[i - 1]));
    assert(flows[i - 1] is Callback);
    assert(sso_step(setup, relay_state, flows[i - 2], events[i - 2], flows[i - 1], actions[i - 2]));
}

} // verus!
