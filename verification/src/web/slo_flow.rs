//! The logout endpoint as a flow: what is done next, after what came of the
//! last thing done.

use super::config::IdpConfig;
use super::error::{SamlActixError, SamlActixErrorView};
use super::logout::{
    admit_logout, logout_admission, slo_message, to_notify, LogoutRequest, NameIdOrEncryptedId,
    SessionParticipant, SloMessage,
};
use super::messages::{
    answer_xml, logout_page, logout_page_text, logout_response, passes_on, propagation_requests,
    success_status, Propagation,
};
use super::signature::{RedirectSignature, XmlSignatures};
use crate::digest::{is_new_id, new_id};
use crate::saml::error::ProfileError;
use crate::saml::metadata::SpSsoDescriptor;
use crate::saml::name_id::NameId;
use crate::saml::time::Instant;
use crate::text::{as_opt_str, clone_strings, concat, opt_text, texts, to_opt_string};
use vstd::prelude::*;

verus! {

/// Where a logout stands: what it waits for.
#[derive(Debug)]
pub enum SloFlow {
    /// The name of the message's root element.
    Name,
    /// The logout request.
    Request,
    /// What is trusted for the issuer, and what verifying the signatures found.
    Trust {
        /// The logout request.
        request: LogoutRequest,
    },
    /// Whether the logout request is timely and new.
    Validation {
        /// The logout request.
        request: LogoutRequest,
    },
    /// The sessions that were taken out of the session store.
    Sessions {
        /// The logout request.
        request: LogoutRequest,
    },
    /// Nothing any more.
    Over,
}

/// What came of the last thing done.
#[derive(Debug)]
pub enum SloEvent {
    /// The local name of the message's root element.
    Named(String),
    /// The message, parsed.
    Parsed(LogoutRequest),
    /// What is known of the sender.
    Established {
        /// The metadata that is trusted for the issuer.
        sp: Option<SpSsoDescriptor>,
        /// What verifying the signature of the query found, if it has one.
        redirect: Option<RedirectSignature>,
        /// What verifying the XML signatures found.
        xml: XmlSignatures,
    },
    /// Whether the logout request is timely and new.
    Validated(Result<(), ProfileError>),
    /// The participants of each session that was taken out of the store.
    Taken(Result<Vec<Vec<SessionParticipant>>, String>),
}

/// What is done next.
#[derive(Debug)]
pub enum SloAction {
    /// Parse the message as a logout request.
    Parse,
    /// Find what is trusted for the issuer, and verify the signatures.
    Establish {
        /// The issuer.
        issuer: Option<String>,
    },
    /// Check that the logout request is timely and new.
    Validate {
        /// The service provider that asks.
        requester: String,
        /// Whether the message was authenticated: it was.
        authenticated: bool,
    },
    /// Take the sessions out of the session store.
    Take {
        /// The service provider that asks.
        requester: String,
        /// The subject.
        name_id: NameId,
        /// Which sessions; all where there is none.
        session_indexes: Vec<String>,
    },
    /// Pass the logout on, and show the page.
    Reply {
        /// The logout requests for the other participants.
        requests: Vec<Propagation>,
        /// The page.
        page: String,
    },
    /// Acknowledge a logout response, in plain words.
    Acknowledge {
        /// The words.
        text: String,
    },
    /// Answer with an error.
    Fail(SamlActixError),
}

/// What is answered to a logout response.
pub const ACKNOWLEDGED: &'static str = "Logout propagation acknowledged";

/// Why an event that the flow does not wait for ends it.
pub const UNEXPECTED: &'static str = "unexpected event";

/// Whether a flow ends with an error.
pub open spec fn slo_fails(flow: SloFlow, action: SloAction, error: SamlActixErrorView) -> bool {
    &&& flow is Over
    &&& action matches SloAction::Fail(e)
    &&& e@ == error
}

/// The participants that are notified of the end of some sessions, in order.
pub open spec fn all_to_notify(sessions: Seq<Vec<SessionParticipant>>, requester: Seq<char>) -> Seq<
    SessionParticipant,
>
    decreases sessions.len(),
{
    if sessions.len() == 0 {
        Seq::empty()
    } else {
        all_to_notify(sessions.drop_last(), requester) + to_notify(sessions.last()@, requester)
    }
}

/// Whether each of some participants has a logout request on the way.
pub open spec fn all_pass_on(
    issuer: Seq<char>,
    participants: Seq<SessionParticipant>,
    now: Instant,
    requests: Seq<Propagation>,
) -> bool {
    &&& requests.len() == participants.len()
    &&& forall|i: int|
        0 <= i < requests.len() ==> passes_on(
            issuer,
            participants[i],
            now,
            #[trigger] requests[i],
        )
}

/// Whether a page tells of a logout that is done.
pub open spec fn tells_of_logout(
    page: Seq<char>,
    issuer: Seq<char>,
    request_id: Seq<char>,
    now: Instant,
) -> bool {
    exists|id: Seq<char>| #[trigger]
        is_new_id(id) && page == logout_page_text(
            answer_xml(
                "samlp:LogoutResponse"@,
                issuer,
                request_id,
                success_status(),
                Seq::empty(),
                id,
                now,
            ),
        )
}

/// Who asks for a logout.
pub open spec fn requester_of(request: LogoutRequest) -> Seq<char> {
    match request.issuer {
        Some(issuer) => issuer@,
        None => Seq::empty(),
    }
}

/// Whether one step leads from `flow` to `next`, by doing `action`.
pub open spec fn slo_step(
    config: IdpConfig,
    now: Instant,
    flow: SloFlow,
    event: SloEvent,
    next: SloFlow,
    action: SloAction,
) -> bool {
    match (flow, event) {
        (SloFlow::Name, SloEvent::Named(name)) => if name@ == "LogoutRequest"@ {
            next is Request && action is Parse
        } else if name@ == "LogoutResponse"@ {
            &&& next is Over
            &&& action matches SloAction::Acknowledge { text }
            &&& text@ == ACKNOWLEDGED@
        } else {
            slo_fails(
                next,
                action,
                SamlActixErrorView::UnsupportedBinding(
                    "unexpected SAML element in SLO: "@ + name@,
                ),
            )
        },
        (SloFlow::Request, SloEvent::Parsed(request)) => {
            &&& next == (SloFlow::Trust { request })
            &&& action matches SloAction::Establish { issuer }
            &&& opt_text(issuer) == opt_text(request.issuer)
        },
        (SloFlow::Trust { request }, SloEvent::Established { sp, redirect, xml }) => {
            match logout_admission(config.slo_url@, request, redirect, xml, sp is Some) {
                Ok(admitted) => {
                    &&& next == (SloFlow::Validation { request })
                    &&& action matches SloAction::Validate { requester, authenticated }
                    &&& requester@ == admitted.0
                    &&& authenticated
                },
                Err(e) => slo_fails(next, action, e),
            }
        },
        (SloFlow::Validation { request }, SloEvent::Validated(result)) => match result {
            Ok(()) => match (request.issuer, request.name_id) {
                (Some(issuer), NameIdOrEncryptedId::NameId(n)) => {
                    &&& next == (SloFlow::Sessions { request })
                    &&& action matches SloAction::Take { requester, name_id, session_indexes }
                    &&& requester@ == issuer@
                    &&& name_id@ == n@
                    &&& texts(session_indexes@) == texts(request.session_indexes@)
                },
                _ => slo_fails(next, action, SamlActixErrorView::Internal(UNEXPECTED@)),
            },
            Err(e) => slo_fails(next, action, SamlActixErrorView::Profile(e@)),
        },
        (SloFlow::Sessions { request }, SloEvent::Taken(result)) => match result {
            Ok(sessions) => {
                &&& next is Over
                &&& action matches SloAction::Reply { requests, page }
                &&& all_pass_on(
                    config.entity_id@,
                    all_to_notify(sessions@, requester_of(request)),
                    now,
                    requests@,
                )
                &&& tells_of_logout(page@, config.entity_id@, request.id@, now)
            },
            Err(e) => slo_fails(
                next,
                action,
                SamlActixErrorView::Internal(
                    "atomic participant-bound session removal failed: "@ + e@,
                ),
            ),
        },
        _ => slo_fails(next, action, SamlActixErrorView::Internal(UNEXPECTED@)),
    }
}

fn unexpected() -> (result: (SloFlow, SloAction))
    ensures
        slo_fails(result.0, result.1, SamlActixErrorView::Internal(UNEXPECTED@)),
{
    (SloFlow::Over, SloAction::Fail(SamlActixError::Internal(UNEXPECTED.to_owned())))
}

fn all_requests(
    issuer: &str,
    sessions: Vec<Vec<SessionParticipant>>,
    requester: &str,
    now: Instant,
) -> (result: Vec<Propagation>)
    requires
        now.in_range(),
    ensures
        all_pass_on(issuer@, all_to_notify(sessions@, requester@), now, result@),
{
    let ghost all = sessions@;
    let mut left = sessions;
    let mut out: Vec<Propagation> = Vec::new();
    let ghost mut n: int = 0;
    assert(all.take(0) == Seq::<Vec<SessionParticipant>>::empty());
    while left.len() > 0
        invariant
            0 <= n <= all.len(),
            left@ == all.skip(n),
            now.in_range(),
            all_pass_on(issuer@, all_to_notify(all.take(n), requester@), now, out@),
        decreases left@.len(),
    {
        proof {
            assert(all.take(n + 1).drop_last() == all.take(n));
            assert(all.take(n + 1).last() == all[n]);
            assert(left@[0] == all[n]);
        }
        let ghost before = out@;
        let ghost head = all_to_notify(all.take(n), requester@);
        let participants = left.remove(0);
        assert(left@ == all.skip(n + 1));
        let mut more = propagation_requests(issuer, participants, requester, now);
        let ghost tail = to_notify(all[n]@, requester@);
        let ghost added = more@;
        out.append(&mut more);
        assert(out@ == before + added);
        assert(all_pass_on(issuer@, head + tail, now, out@)) by {
            assert forall|i: int| 0 <= i < out@.len() implies passes_on(
                issuer@,
                (head + tail)[i],
                now,
                #[trigger] out@[i],
            ) by {
                if i < before.len() {
                    assert(out@[i] == before[i]);
                } else {
                    assert(out@[i] == added[i - before.len()]);
                    assert((head + tail)[i] == tail[i - before.len()]);
                }
            }
        }
        proof {
            n = n + 1;
        }
    }
    assert(all.take(n) == all);
    out
}

impl SloFlow {
    /// Go on after an event.
    pub fn step(self, event: SloEvent, config: &IdpConfig, now: Instant) -> (result: (
        SloFlow,
        SloAction,
    ))
        requires
            now.in_range(),
        ensures
            slo_step(*config, now, self, event, result.0, result.1),
    {
        match (self, event) {
            (SloFlow::Name, SloEvent::Named(name)) => match slo_message(name.as_str()) {
                Ok(SloMessage::Request) => (SloFlow::Request, SloAction::Parse),
                Ok(SloMessage::Response) => (
                    SloFlow::Over,
                    SloAction::Acknowledge { text: ACKNOWLEDGED.to_owned() },
                ),
                Err(e) => (SloFlow::Over, SloAction::Fail(e)),
            },
            (SloFlow::Request, SloEvent::Parsed(request)) => {
                let issuer = to_opt_string(as_opt_str(&request.issuer));
                (SloFlow::Trust { request }, SloAction::Establish { issuer })
            },
            (SloFlow::Trust { request }, SloEvent::Established { sp, redirect, xml }) => {
                let (requester, authenticated) = match admit_logout(
                    config,
                    &request,
                    redirect.as_ref(),
                    &xml,
                    sp.as_ref(),
                ) {
                    Ok(a) => (a.requester.to_owned(), a.authorization.message_authenticated()),
                    Err(e) => {
                        return (SloFlow::Over, SloAction::Fail(e));
                    },
                };
                (
                    SloFlow::Validation { request },
                    SloAction::Validate { requester, authenticated },
                )
            },
            (SloFlow::Validation { request }, SloEvent::Validated(result)) => {
                if let Err(e) = result {
                    return (SloFlow::Over, SloAction::Fail(SamlActixError::Profile(e)));
                }
                let requester = match &request.issuer {
                    Some(issuer) => issuer.clone(),
                    None => {
                        return unexpected();
                    },
                };
                let name_id = match &request.name_id {
                    NameIdOrEncryptedId::NameId(n) => n.clone(),
                    NameIdOrEncryptedId::EncryptedId(_) => {
                        return unexpected();
                    },
                };
                let session_indexes = clone_strings(request.session_indexes.as_slice());
                (
                    SloFlow::Sessions { request },
                    SloAction::Take { requester, name_id, session_indexes },
                )
            },
            (SloFlow::Sessions { request }, SloEvent::Taken(result)) => match result {
                Ok(sessions) => {
                    let none = String::new();
                    assert(none@ == Seq::<char>::empty());
                    let requester = match &request.issuer {
                        Some(issuer) => issuer.as_str(),
                        None => none.as_str(),
                    };
                    let requests = all_requests(
                        config.entity_id.as_str(),
                        sessions,
                        requester,
                        now,
                    );
                    let id = new_id();
                    assert(is_new_id(id@));
                    let response = logout_response(
                        config.entity_id.as_str(),
                        request.id.as_str(),
                        id.as_str(),
                        now,
                    );
                    let page = logout_page(response.as_str());
                    (SloFlow::Over, SloAction::Reply { requests, page })
                },
                Err(e) => (
                    SloFlow::Over,
                    SloAction::Fail(
                        SamlActixError::Internal(
                            concat(
                                "atomic participant-bound session removal failed: ",
                                e.as_str(),
                            ),
                        ),
                    ),
                ),
            },
            _ => unexpected(),
        }
    }
}

/// Whether a logout went through some events from its beginning.
pub open spec fn is_slo_run(
    config: IdpConfig,
    nows: Seq<Instant>,
    flows: Seq<SloFlow>,
    events: Seq<SloEvent>,
    actions: Seq<SloAction>,
) -> bool {
    &&& flows.len() == events.len() + 1
    &&& actions.len() == events.len()
    &&& nows.len() == events.len()
    &&& flows[0] is Name
    &&& forall|i: int|
        0 <= i < events.len() ==> slo_step(
            config,
            nows[i],
            flows[i],
            #[trigger] events[i],
            flows[i + 1],
            actions[i],
        )
}

/// Whether a logout request was let through at some time before `end`.
pub open spec fn was_let_through(
    config: IdpConfig,
    flows: Seq<SloFlow>,
    events: Seq<SloEvent>,
    end: int,
    request: LogoutRequest,
) -> bool {
    exists|t: int|
        {
            &&& 0 <= t < end
            &&& flows[t] == (SloFlow::Trust { request })
            &&& #[trigger] events[t] matches SloEvent::Established { sp, redirect, xml }
            &&& logout_admission(config.slo_url@, request, redirect, xml, sp is Some) is Ok
        }
}

proof fn lemma_let_through(
    config: IdpConfig,
    nows: Seq<Instant>,
    flows: Seq<SloFlow>,
    events: Seq<SloEvent>,
    actions: Seq<SloAction>,
    k: int,
)
    requires
        is_slo_run(config, nows, flows, events, actions),
        0 <= k < flows.len(),
    ensures
        flows[k] matches SloFlow::Validation { request } ==> was_let_through(
            config,
            flows,
            events,
            k,
            request,
        ),
        flows[k] matches SloFlow::Sessions { request } ==> was_let_through(
            config,
            flows,
            events,
            k,
            request,
        ),
    decreases k,
{
    if k > 0 {
        let i = k - 1;
        lemma_let_through(config, nows, flows, events, actions, i);
        assert(slo_step(config, nows[i], flows[i], events[i], flows[i + 1], actions[i]));
        if let SloFlow::Validation { request } = flows[k] {
            assert(flows[i] == (SloFlow::Trust { request }));
            assert(was_let_through(config, flows, events, k, request));
        }
        if let SloFlow::Sessions { request } = flows[k] {
            assert(flows[i] == (SloFlow::Validation { request }));
            let t = choose|t: int|
                {
                    &&& 0 <= t < i
                    &&& flows[t] == (SloFlow::Trust { request })
                    &&& #[trigger] events[t] matches SloEvent::Established { sp, redirect, xml }
                    &&& logout_admission(
                        config.slo_url@,
                        request,
                        redirect,
                        xml,
                        sp is Some,
                    ) is Ok
                };
            assert(events[t] is Established);
            assert(was_let_through(config, flows, events, k, request));
        }
    }
}

/// No session is touched for anyone who is not authenticated: whatever comes
/// in, sessions are only taken out of the store once a logout request of a
/// trusted service provider was authenticated, then found timely and new, and
/// only those of the subject it names, for the service provider that sent it.
pub proof fn law_sessions_are_taken_for_the_authenticated(
    config: IdpConfig,
    nows: Seq<Instant>,
    flows: Seq<SloFlow>,
    events: Seq<SloEvent>,
    actions: Seq<SloAction>,
    i: int,
)
    requires
        is_slo_run(config, nows, flows, events, actions),
        0 <= i < actions.len(),
    ensures
        actions[i] matches SloAction::Take { requester, name_id, session_indexes } ==> {
            &&& events[i] matches SloEvent::Validated(valid)
            &&& valid is Ok
            &&& flows[i] matches SloFlow::Validation { request }
            &&& was_let_through(config, flows, events, i, request)
            &&& request.issuer matches Some(issuer)
            &&& requester@ == issuer@
            &&& request.name_id matches NameIdOrEncryptedId::NameId(n)
            &&& name_id@ == n@
            &&& texts(session_indexes@) == texts(request.session_indexes@)
        },
{
    lemma_let_through(config, nows, flows, events, actions, i);
    assert(slo_step(config, nows[i], flows[i], events[i], flows[i + 1], actions[i]));
}

} // verus!
