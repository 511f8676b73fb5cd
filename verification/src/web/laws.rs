//! What the endpoints promise, told of the messages and of the configuration.

use super::artifact::{resolve_fault, ArtifactResolve};
use super::config::{
    last_with_id, law_registered_has_the_id, registered, saml2_role, trusted_entity, IdpConfig,
};
use super::error::{refused, SamlActixError, SamlActixErrorView};
use super::logout::{
    logout_admission, slo_fault, to_notify, LogoutRequest, NameIdOrEncryptedId,
    SessionParticipant,
};
use super::signature::{
    authentication, first_fault, is_bound, passes_unless, redirect_fault, xml_fault,
    RedirectSignature, VerifyResult, XmlSignatures,
};
use super::signing::IdpSigningContext;
use super::slo_flow::all_to_notify;
use super::sso::{
    admission, callback_answers, callback_view, delivers, disposition_at, may_reply, next_step,
    response_in, AuthnCallbackResult, AuthnSubjectResult, SsoNext, SsoReply,
};
use crate::digest::is_new_id;
use crate::idp::assertion_store::AssertionStore;
use crate::idp::authn_broker::meets;
use crate::idp::ident::db::NameIdConstructor;
use crate::idp::ident::error::IdentErrorView;
use crate::idp::orchestrator::answer_laws::lemma_refusal_fails_to_be_signed;
use crate::idp::orchestrator::decision_laws::{
    comes_to_class, law_request_without_a_session_is_decided,
    law_session_is_reused_where_it_can_be,
};
use crate::idp::orchestrator::denial::Denial;
use crate::idp::orchestrator::params::{
    DispositionView, EstablishedSessionView, IssuedResponseView, ResponseOutcomeView,
    ResponseParams,
};
use crate::idp::orchestrator::release::AttributeRelease;
use crate::idp::orchestrator::respond::{may_answer, may_deny, untouched, ResponseEngine};
use crate::idp::policy_laws::law_first_saml2_role_counts;
use crate::reading::{read, Tag};
use crate::saml::attribute::attribute_views;
use crate::saml::error::ProfileErrorView;
use crate::saml::metadata::{first_saml2, EntityDescriptor};
use crate::saml::request::ProcessedAuthnRequest;
use crate::saml::response::ResponseView;
use crate::saml::response_reading::law_window_is_read;
use crate::saml::response_xml::response_xml;
use crate::saml::signing::may_be_signed;
use crate::saml::time::{in_range_nanos, Instant};
use crate::text::{debug_text, opt_text, texts};
use vstd::prelude::*;

verus! {

/// What the application decides itself is answered for the request it was asked
/// about. The response that is serialized, and signed as configured, is from
/// this identity provider, answers that request, goes where the request has it
/// go, is for the service provider that sent it, and says of the subject what
/// the application reported: the NameID, the attributes, the class, the session
/// and the moment. It is valid from now on for the configured time, and the
/// session from now on for the configured time.
pub proof fn law_callback_is_bound_to_the_request<F: Fn(&str) -> Result<String, String>>(
    config: IdpConfig,
    ctx: Option<&IdpSigningContext<F>>,
    processed: ProcessedAuthnRequest,
    reported: AuthnCallbackResult,
    client_address: Option<Seq<char>>,
    now: Instant,
    response_id: Seq<char>,
    assertion_id: Seq<char>,
    xml: Seq<char>,
)
    requires
        callback_answers(
            config,
            ctx,
            processed,
            reported,
            client_address,
            now,
            response_id,
            assertion_id,
            Ok::<Seq<char>, SamlActixErrorView>(xml),
        ),
    ensures
        exists|r: ResponseView|
            {
                &&& match ctx {
                    Some(c) => may_be_signed(
                        c.signer,
                        c.cert_b64@,
                        response_xml(r),
                        response_id,
                        Some(assertion_id),
                        config.sign_assertions,
                        config.sign_responses,
                        Ok::<Seq<char>, ProfileErrorView>(xml),
                    ),
                    None => !config.sign_assertions && !config.sign_responses && xml
                        == #[trigger] response_xml(r),
                }
                &&& r.id == response_id
                &&& r.issuer == config.entity_id@
                &&& r.issue_instant == now
                &&& r.in_response_to == Some(processed.request_id@)
                &&& r.destination == processed.acs_url@
                &&& r.status.code == "urn:oasis:names:tc:SAML:2.0:status:Success"@
                &&& r.status.sub_code is None
                &&& r.status.message is None
                &&& r.assertion matches Some(a)
                &&& a.id == assertion_id
                &&& a.issuer == config.entity_id@
                &&& a.issue_instant == now
                &&& a.in_response_to == Some(processed.request_id@)
                &&& a.recipient == processed.acs_url@
                &&& a.audience == processed.sp_entity_id@
                &&& a.name_id == reported.name_id@
                &&& a.attributes == attribute_views(reported.attributes@)
                &&& a.authn_context_class_ref == opt_text(reported.authn_context_class_ref)
                &&& a.authenticating_authorities.len() == 0
                &&& a.session_index == opt_text(reported.session_index)
                &&& a.client_address == client_address
                &&& a.authn_instant == if reported.authn_instant is Some {
                    reported.authn_instant->0
                } else {
                    now
                }
                &&& a.not_on_or_after.nanos == now.nanos + config.assertion_lifetime_seconds
                    * 1_000_000_000
                &&& a.session_not_on_or_after matches Some(end)
                &&& config.session_lifetime_seconds <= 9_223_372_036_854_775 ==> end.nanos
                    == now.nanos + config.session_lifetime_seconds * 1_000_000_000
                &&& config.session_lifetime_seconds > 9_223_372_036_854_775 ==> end.nanos
                    == now.nanos + 28_800_000_000_000
                &&& read(response_xml(r)).contains(
                    (Tag {
                        name: "saml:Conditions"@,
                        attributes: seq![
                            ("NotBefore"@, now.text()),
                            ("NotOnOrAfter"@, a.not_on_or_after.text()),
                        ],
                        text: seq![],
                    }),
                )
            },
{
    let r = callback_view(
        config,
        processed,
        reported,
        client_address,
        now,
        response_id,
        assertion_id,
    );
    law_window_is_read(r, r.assertion->0);
    if let Some(c) = ctx {
        assert(may_be_signed(
            c.signer,
            c.cert_b64@,
            response_xml(r),
            response_id,
            Some(assertion_id),
            config.sign_assertions,
            config.sign_responses,
            Ok::<Seq<char>, ProfileErrorView>(xml),
        ));
    }
}

/// What the application decides itself is answered wherever it can be. Without a
/// key it fails exactly where something is to be signed; with one it fails only
/// where the signer does. This is so wherever a date can be given for every moment.
pub proof fn law_callback_is_answered<F: Fn(&str) -> Result<String, String>>(
    config: IdpConfig,
    ctx: Option<&IdpSigningContext<F>>,
    processed: ProcessedAuthnRequest,
    reported: AuthnCallbackResult,
    client_address: Option<Seq<char>>,
    now: Instant,
    response_id: Seq<char>,
    assertion_id: Seq<char>,
    result: Result<Seq<char>, SamlActixErrorView>,
)
    requires
        callback_answers(
            config,
            ctx,
            processed,
            reported,
            client_address,
            now,
            response_id,
            assertion_id,
            result,
        ),
        now.in_range(),
        reported.authn_instant is Some ==> reported.authn_instant->0.in_range(),
        in_range_nanos(now.nanos + config.assertion_lifetime_seconds * 1_000_000_000),
        in_range_nanos(
            now.nanos + (if config.session_lifetime_seconds <= 9_223_372_036_854_775 {
                config.session_lifetime_seconds as int
            } else {
                28_800
            }) * 1_000_000_000,
        ),
    ensures
        ctx is None ==> ((result is Ok) <==> !config.sign_assertions && !config.sign_responses),
        ctx is None && result is Err ==> result->Err_0 == SamlActixErrorView::Configuration(
            "IdP response/assertion signing is enabled but no IdpSigningContext is registered"@,
        ),
        ctx is Some && result is Err ==> exists|e: ProfileErrorView, r: ResponseView|
            {
                &&& #[trigger] may_be_signed(
                    ctx->0.signer,
                    ctx->0.cert_b64@,
                    response_xml(r),
                    response_id,
                    Some(assertion_id),
                    config.sign_assertions,
                    config.sign_responses,
                    Err::<Seq<char>, ProfileErrorView>(e),
                )
                &&& result->Err_0 == SamlActixErrorView::Internal(
                    "response/assertion signing failed: "@ + e.message(),
                )
            },
{
    let r = callback_view(
        config,
        processed,
        reported,
        client_address,
        now,
        response_id,
        assertion_id,
    );
    if let Some(c) = ctx {
        if result is Err {
            let signed = choose|signed: Result<Seq<char>, ProfileErrorView>| #[trigger]
                may_be_signed(
                    c.signer,
                    c.cert_b64@,
                    response_xml(r),
                    response_id,
                    Some(assertion_id),
                    config.sign_assertions,
                    config.sign_responses,
                    signed,
                ) && result == super::signing::as_internal(signed);
            let e = signed->Err_0;
            assert(signed == Err::<Seq<char>, ProfileErrorView>(e));
        }
    }
}

/// Whether a message is signed, and every signature on it is valid: that of the
/// query where there is one, and each XML signature, which has to refer to the
/// message by its identifier, or to the whole document.
pub open spec fn is_rightly_signed(
    redirect: Option<RedirectSignature>,
    xml: XmlSignatures,
    id: Seq<char>,
    has_xml_signature: bool,
) -> bool {
    &&& redirect is Some || has_xml_signature
    &&& redirect matches Some(r) ==> r == RedirectSignature::Checked(true)
    &&& has_xml_signature ==> are_all_for(xml, id)
}

/// Whether there are XML signatures, and each is valid and refers to the message
/// or to the whole document.
pub open spec fn are_all_for(xml: XmlSignatures, id: Seq<char>) -> bool {
    &&& xml matches XmlSignatures::Checked(results)
    &&& results@.len() > 0
    &&& forall|i: int|
        0 <= i < results@.len() ==> {
            &&& #[trigger] results@[i] matches VerifyResult::Valid { references }
            &&& exists|j: int|
                0 <= j < references@.len() && ((#[trigger] references@[j])@.len() == 0
                    || references@[j]@ == "#"@ + id)
        }
}

proof fn lemma_all_for(results: Seq<VerifyResult>, id: Seq<char>, i: int)
    requires
        0 <= i < results.len(),
    ensures
        (results[i] matches VerifyResult::Valid { references } && is_bound(
            texts(references@),
            id,
        )) <==> {
            &&& results[i] matches VerifyResult::Valid { references }
            &&& exists|j: int|
                0 <= j < references@.len() && ((#[trigger] references@[j])@.len() == 0
                    || references@[j]@ == "#"@ + id)
        },
{
    if let VerifyResult::Valid { references } = results[i] {
        let ts = texts(references@);
        if is_bound(ts, id) {
            let j = choose|j: int|
                0 <= j < ts.len() && super::signature::covers(#[trigger] ts[j], id);
            assert(references@[j]@ == ts[j]);
        }
        if exists|j: int|
            0 <= j < references@.len() && ((#[trigger] references@[j])@.len() == 0
                || references@[j]@ == "#"@ + id) {
            let j = choose|j: int|
                0 <= j < references@.len() && ((#[trigger] references@[j])@.len() == 0
                    || references@[j]@ == "#"@ + id);
            assert(ts[j] == references@[j]@);
            assert(super::signature::covers(ts[j], id));
        }
    }
}

proof fn lemma_fault_free(results: Seq<VerifyResult>, id: Seq<char>, what: Seq<char>)
    ensures
        first_fault(results, id, what) is None <==> forall|i: int|
            0 <= i < results.len() ==> {
                &&& #[trigger] results[i] matches VerifyResult::Valid { references }
                &&& exists|j: int|
                    0 <= j < references@.len() && ((#[trigger] references@[j])@.len() == 0
                        || references@[j]@ == "#"@ + id)
            },
    decreases results.len(),
{
    if results.len() > 0 {
        let rest = results.skip(1);
        lemma_fault_free(rest, id, what);
        lemma_all_for(results, id, 0);
        assert forall|i: int| 0 <= i < rest.len() implies #[trigger] rest[i] == results[i + 1] by {}
        if first_fault(results, id, what) is None {
            assert forall|i: int| 0 <= i < results.len() implies {
                &&& #[trigger] results[i] matches VerifyResult::Valid { references }
                &&& exists|j: int|
                    0 <= j < references@.len() && ((#[trigger] references@[j])@.len() == 0
                        || references@[j]@ == "#"@ + id)
            } by {
                if i > 0 {
                    assert(rest[i - 1] == results[i]);
                }
            }
        }
    }
}

/// A message is taken as authenticated exactly where it is rightly signed. One
/// without any signature is taken, but not as authenticated; any other is
/// refused.
pub proof fn law_authenticated_exactly_where_rightly_signed(
    redirect: Option<RedirectSignature>,
    xml: XmlSignatures,
    id: Seq<char>,
    has_xml_signature: bool,
    what: Seq<char>,
)
    ensures
        ({
            let result = authentication(redirect, xml, id, has_xml_signature, what);
            &&& result == Ok::<bool, SamlActixErrorView>(true) <==> is_rightly_signed(
                redirect,
                xml,
                id,
                has_xml_signature,
            )
            &&& result == Ok::<bool, SamlActixErrorView>(false) <==> redirect is None
                && !has_xml_signature
            &&& result matches Err(e) ==> e matches SamlActixErrorView::Profile(_)
        }),
{
    if let XmlSignatures::Checked(results) = xml {
        lemma_fault_free(results@, id, what);
    }
}

/// A request for single sign-on is admitted exactly where it names its issuer,
/// the issuer is trusted and has a SAML 2.0 role, and it is rightly signed or
/// not signed at all. The role that counts is the first that supports SAML 2.0,
/// and the request counts as verified exactly where it is signed.
pub proof fn law_admitted_only_from_the_trusted(
    issuer: Option<Seq<char>>,
    entity: Option<EntityDescriptor>,
    redirect: Option<RedirectSignature>,
    xml: XmlSignatures,
    request_id: Seq<char>,
    has_xml_signature: bool,
)
    ensures
        ({
            let result = admission(issuer, entity, redirect, xml, request_id, has_xml_signature);
            let signed = redirect is Some || has_xml_signature;
            let rightly = is_rightly_signed(redirect, xml, request_id, has_xml_signature);
            &&& result is Ok <==> {
                &&& issuer is Some
                &&& entity is Some
                &&& exists|k: int|
                    0 <= k < entity->0.sp_sso@.len() && texts(
                        (#[trigger] entity->0.sp_sso@[k]).protocols@,
                    ).contains("urn:oasis:names:tc:SAML:2.0:protocol"@)
                &&& signed ==> rightly
            }
            &&& result matches Ok((role, verified)) ==> verified == signed && exists|k: int|
                {
                    &&& 0 <= k < entity->0.sp_sso@.len()
                    &&& role == #[trigger] entity->0.sp_sso@[k]
                    &&& texts(role.protocols@).contains("urn:oasis:names:tc:SAML:2.0:protocol"@)
                    &&& forall|j: int|
                        0 <= j < k ==> !texts(
                            (#[trigger] entity->0.sp_sso@[j]).protocols@,
                        ).contains("urn:oasis:names:tc:SAML:2.0:protocol"@)
                }
            &&& result matches Err(e) ==> e matches SamlActixErrorView::Profile(_)
        }),
{
    law_authenticated_exactly_where_rightly_signed(
        redirect,
        xml,
        request_id,
        has_xml_signature,
        "AuthnRequest"@,
    );
    if let Some(e) = entity {
        law_first_saml2_role_counts(e.sp_sso@);
        let at = first_saml2(e.sp_sso@) as int;
        if at < e.sp_sso@.len() {
            assert(texts(e.sp_sso@[at].protocols@).contains(
                "urn:oasis:names:tc:SAML:2.0:protocol"@,
            ));
        }
    }
}

/// A logout request is let through exactly where it names its issuer, the issuer
/// is trusted, it is for this endpoint where it says for which and there is one,
/// it is rightly signed, and its NameID is not encrypted. It is let through for
/// its issuer and its NameID.
pub proof fn law_logout_is_let_through_for_cause(
    slo_url: Seq<char>,
    request: LogoutRequest,
    redirect: Option<RedirectSignature>,
    xml: XmlSignatures,
    trusted: bool,
)
    ensures
        ({
            let result = logout_admission(slo_url, request, redirect, xml, trusted);
            let may_end = {
                &&& request.issuer is Some
                &&& trusted
                &&& request.destination is None || slo_url.len() == 0 || request.destination->0@
                    == slo_url
                &&& is_rightly_signed(redirect, xml, request.id@, request.has_signature)
            };
            &&& slo_fault(slo_url, request, redirect, xml, trusted) is None <==> may_end
            &&& result is Ok <==> may_end && request.name_id is NameId
            &&& result matches Ok((requester, name_id)) ==> requester == request.issuer->0@
                && request.name_id == NameIdOrEncryptedId::NameId(name_id)
            &&& result matches Err(e) ==> e matches SamlActixErrorView::Profile(_)
        }),
{
    law_authenticated_exactly_where_rightly_signed(
        redirect,
        xml,
        request.id@,
        request.has_signature,
        "LogoutRequest"@,
    );
}

/// An artifact is resolved exactly for a request that names its issuer, whose
/// issuer is trusted, and that has XML signatures, each of them valid and for the
/// request.
pub proof fn law_artifact_is_resolved_for_cause(
    resolve: ArtifactResolve,
    xml: XmlSignatures,
    trusted: bool,
)
    ensures
        resolve_fault(resolve, xml, trusted) is None <==> resolve.issuer is Some && trusted
            && are_all_for(xml, resolve.id@),
{
    if let XmlSignatures::Checked(results) = xml {
        lemma_fault_free(results@, resolve.id@, "ArtifactResolve"@);
    }
}

/// A logout is passed on to every participant of a session but the one that
/// asked for it, and to nobody else, in order.
pub proof fn law_all_others_are_notified(
    first: Seq<SessionParticipant>,
    second: Seq<SessionParticipant>,
    p: SessionParticipant,
    requester: Seq<char>,
)
    ensures
        to_notify(first + second, requester) == to_notify(first, requester) + to_notify(
            second,
            requester,
        ),
        p.entity_id@ != requester ==> to_notify(seq![p], requester) == seq![p],
        p.entity_id@ == requester ==> to_notify(seq![p], requester).len() == 0,
        to_notify(Seq::empty(), requester).len() == 0,
{
    let pred = |x: SessionParticipant| x.entity_id@ != requester;
    Seq::filter_distributes_over_add(first, second, pred);
    reveal_with_fuel(Seq::filter, 2);
    assert(seq![p].drop_last() == Seq::<SessionParticipant>::empty());
    assert(Seq::<SessionParticipant>::empty().push(p) == seq![p]);
}

/// Of several sessions, the others of each are notified, session by session.
pub proof fn law_others_of_every_session_are_notified(
    first: Seq<Vec<SessionParticipant>>,
    second: Seq<Vec<SessionParticipant>>,
    session: Vec<SessionParticipant>,
    requester: Seq<char>,
)
    ensures
        all_to_notify(first + second, requester) == all_to_notify(first, requester)
            + all_to_notify(second, requester),
        all_to_notify(seq![session], requester) == to_notify(session@, requester),
    decreases second.len(),
{
    reveal_with_fuel(all_to_notify, 2);
    assert(seq![session].drop_last() == Seq::<Vec<SessionParticipant>>::empty());
    assert(Seq::<SessionParticipant>::empty() + to_notify(session@, requester) == to_notify(
        session@,
        requester,
    ));
    if second.len() == 0 {
        assert(first + second == first);
    } else {
        let front = second.drop_last();
        law_others_of_every_session_are_notified(first, front, session, requester);
        assert((first + second).drop_last() == first + front);
        assert((first + second).last() == second.last());
    }
}

/// Of entities that were registered under one ID the last counts.
pub proof fn law_last_registered_counts(
    entities: Seq<EntityDescriptor>,
    entity_id: Seq<char>,
    k: int,
)
    requires
        0 <= k < entities.len(),
        entities[k].entity_id@ == entity_id,
        forall|j: int| k < j < entities.len() ==> (#[trigger] entities[j]).entity_id@ != entity_id,
    ensures
        registered(entities, entity_id) == Some(entities[k]),
    decreases entities.len(),
{
    if k < entities.len() - 1 {
        let front = entities.drop_last();
        assert(entities.last().entity_id@ != entity_id);
        assert(front[k] == entities[k]);
        assert forall|j: int| k < j < front.len() implies (#[trigger] front[j]).entity_id@
            != entity_id by {
            assert(front[j] == entities[j]);
        }
        law_last_registered_counts(front, entity_id, k);
        law_registered_has_the_id(front, entity_id);
        let at = last_with_id(front, entity_id);
        assert(entities[at] == front[at]);
    } else {
        assert(entities[k] == entities.last());
    }
}

/// Who is trusted under an ID: whoever was registered under it, whatever a
/// resolver fetches; else what a resolver fetched, where that has the ID; else
/// nobody.
pub proof fn law_registered_comes_before_fetched(
    entities: Seq<EntityDescriptor>,
    entity_id: Seq<char>,
    fetched: Option<EntityDescriptor>,
)
    ensures
        registered(entities, entity_id) is Some ==> trusted_entity(entities, entity_id, fetched)
            == registered(entities, entity_id),
        registered(entities, entity_id) is None ==> {
            &&& fetched is None ==> trusted_entity(entities, entity_id, fetched) is None
            &&& fetched matches Some(e) ==> {
                &&& e.entity_id@ == entity_id ==> trusted_entity(entities, entity_id, fetched)
                    == fetched
                &&& e.entity_id@ != entity_id ==> trusted_entity(
                    entities,
                    entity_id,
                    fetched,
                ) is None
            }
        },
        registered(entities, entity_id) is Some <==> exists|k: int|
            0 <= k < entities.len() && (#[trigger] entities[k]).entity_id@ == entity_id,
{
    law_registered_has_the_id(entities, entity_id);
    if let Some(e) = registered(entities, entity_id) {
        let k = choose|k: int| 0 <= k < entities.len() && entities[k] == e;
        assert(entities[k].entity_id@ == entity_id);
    }
}

/// The role of a trusted entity is its first that supports SAML 2.0.
pub proof fn law_role_is_the_first_for_saml2(e: EntityDescriptor, k: int)
    ensures
        saml2_role(None) is None,
        0 <= k < e.sp_sso@.len() && texts(e.sp_sso@[k].protocols@).contains(
            "urn:oasis:names:tc:SAML:2.0:protocol"@,
        ) && (forall|j: int|
            0 <= j < k ==> !texts((#[trigger] e.sp_sso@[j]).protocols@).contains(
                "urn:oasis:names:tc:SAML:2.0:protocol"@,
            )) ==> saml2_role(Some(e)) == Some(e.sp_sso@[k]),
        (forall|j: int|
            0 <= j < e.sp_sso@.len() ==> !texts((#[trigger] e.sp_sso@[j]).protocols@).contains(
                "urn:oasis:names:tc:SAML:2.0:protocol"@,
            )) <==> saml2_role(Some(e)) is None,
{
    law_first_saml2_role_counts(e.sp_sso@);
    let at = first_saml2(e.sp_sso@) as int;
    if at < e.sp_sso@.len() {
        assert(texts(e.sp_sso@[at].protocols@).contains("urn:oasis:names:tc:SAML:2.0:protocol"@));
    }
}

/// What the engine decides on a request at a moment, told of the request: a
/// session is reused exactly where it can be, whatever else the request says;
/// else a passive request is refused; else the subject is asked, unless the
/// request asks for a context that no method meets.
pub proof fn law_request_is_decided_as_it_says<
    R: AttributeRelease + ?Sized,
    N: NameIdConstructor + ?Sized,
    A: AssertionStore + ?Sized,
    F: Fn(&str) -> Result<String, String>,
>(
    e: ResponseEngine<R, N, A, F>,
    p: ResponseParams,
    session: Option<EstablishedSessionView>,
    now: Instant,
    class_ref: Seq<char>,
)
    requires
        session matches Some(s) ==> comes_to_class(e.broker.methods(), s.authn_method, class_ref),
    ensures
        ({
            let d = disposition_at(e, p, session, now);
            let methods = e.broker.methods();
            let entry = e.decisions.entry_of(p.processed.sp_entity_id@);
            let span = if entry.session_lifetime is Some {
                entry.session_lifetime->0
            } else {
                entry.lifetime
            };
            let can_be_reused = {
                &&& session matches Some(s)
                &&& !p.processed.force_authn
                &&& now.nanos < s.authn_instant.nanos + span.nanos
                &&& p.requested() is None || exists|i: int|
                    0 <= i < methods.len() && (#[trigger] methods[i]).class_ref == class_ref
                        && meets(
                        methods,
                        e.broker.by_level(),
                        p.requested(),
                        methods[i].class_ref,
                        methods[i].level,
                    )
            };
            let some_meet = exists|i: int|
                0 <= i < methods.len() && meets(
                    methods,
                    e.broker.by_level(),
                    p.requested(),
                    (#[trigger] methods[i]).class_ref,
                    methods[i].level,
                );
            &&& can_be_reused ==> d == (DispositionView::ReuseSession { session: session->0 })
            &&& !can_be_reused && p.processed.is_passive ==> d == (DispositionView::Deny {
                denial: Denial::NoPassive,
            })
            &&& !can_be_reused && !p.processed.is_passive && p.requested() is Some && !some_meet
                ==> d == (DispositionView::Deny { denial: Denial::NoAuthnContext })
            &&& !can_be_reused && !p.processed.is_passive && (p.requested() is None || some_meet)
                ==> d is Authenticate
        }),
{
    let methods = e.broker.methods();
    let entry = e.decisions.entry_of(p.processed.sp_entity_id@);
    if let Some(s) = session {
        law_session_is_reused_where_it_can_be(
            methods,
            e.broker.by_level(),
            p.requested(),
            p.processed.force_authn,
            p.processed.is_passive,
            s,
            entry.session_span(),
            now,
            class_ref,
        );
    }
    law_request_without_a_session_is_decided(
        methods,
        e.broker.by_level(),
        p.requested(),
        p.processed.force_authn,
        p.processed.is_passive,
        session,
        entry.session_span(),
        now,
        arbitrary(),
    );
}

/// A request that is to be refused is refused before the application is asked,
/// with the refusal that was decided on; any other is put to the application as
/// it was decided on.
pub proof fn law_refusal_comes_before_asking<
    R: AttributeRelease + ?Sized,
    N: NameIdConstructor + ?Sized,
    A: AssertionStore + ?Sized,
    F: Fn(&str) -> Result<String, String>,
>(
    e: ResponseEngine<R, N, A, F>,
    p: ResponseParams,
    d: DispositionView,
    next: SsoNext,
)
    requires
        next_step(e, p, d, Ok(next)),
    ensures
        match next {
            SsoNext::Ask(asked) => !(d is Deny) && asked@ == d,
            SsoNext::Deliver(issued) => {
                &&& d matches DispositionView::Deny { denial }
                &&& exists|now: Instant, response_id: Seq<char>|
                    {
                        &&& #[trigger] may_deny(
                            *e.signer,
                            e.cert_der_b64@,
                            e.idp_entity_id@,
                            p,
                            denial,
                            now,
                            response_id,
                            Ok::<IssuedResponseView, ProfileErrorView>(issued@),
                        )
                        &&& is_new_id(response_id)
                        &&& now.in_range()
                    }
            },
        },
{
    if let DispositionView::Deny { denial } = d {
        let (now, response_id, issued) = choose|
            now: Instant,
            response_id: Seq<char>,
            issued: Result<IssuedResponseView, ProfileErrorView>,
        |
            {
                &&& #[trigger] may_deny(
                    *e.signer,
                    e.cert_der_b64@,
                    e.idp_entity_id@,
                    p,
                    denial,
                    now,
                    response_id,
                    issued,
                )
                &&& is_new_id(response_id)
                &&& now.in_range()
                &&& match issued {
                    Ok(i) => next matches SsoNext::Deliver(r) && r@ == i,
                    Err(error) => false,
                }
            };
        assert(issued == Ok::<IssuedResponseView, ProfileErrorView>(next->Deliver_0@));
    }
}

/// A refused message is forbidden, one that is not for the endpoint is a bad
/// request, and anything else is a fault of the server.
pub proof fn law_status_tells_whose_fault(e: SamlActixErrorView, reason: Seq<char>)
    ensures
        refused(reason).status() == 403,
        e is Profile ==> e.status() == 403,
        e is UnsupportedBinding ==> e.status() == 400,
        e is Configuration || e is Internal ==> e.status() == 500,
{
}

/// The first XML signature that is at fault is the one that is told of: why it
/// is not valid, or that it is not for the message.
pub proof fn law_first_faulty_signature_is_told(
    results: Vec<VerifyResult>,
    id: Seq<char>,
    what: Seq<char>,
    k: int,
)
    requires
        0 <= k < results@.len(),
        forall|i: int|
            0 <= i < k ==> {
                &&& #[trigger] results@[i] matches VerifyResult::Valid { references }
                &&& exists|j: int|
                    0 <= j < references@.len() && ((#[trigger] references@[j])@.len() == 0
                        || references@[j]@ == "#"@ + id)
            },
    ensures
        results@[k] matches VerifyResult::Invalid { reason } ==> xml_fault(
            XmlSignatures::Checked(results),
            id,
            what,
        ) == Some(what + " signature invalid: "@ + reason@),
        results@[k] matches VerifyResult::Valid { references } ==> ((forall|j: int|
            0 <= j < references@.len() ==> (#[trigger] references@[j])@.len() > 0
                && references@[j]@ != "#"@ + id) ==> xml_fault(
            XmlSignatures::Checked(results),
            id,
            what,
        ) == Some(what + " signature did not reference the message (XML Signature Wrapping)"@)),
{
    lemma_first_fault_at(results@, id, what, k);
}

proof fn lemma_first_fault_at(results: Seq<VerifyResult>, id: Seq<char>, what: Seq<char>, k: int)
    requires
        0 <= k < results.len(),
        forall|i: int|
            0 <= i < k ==> {
                &&& #[trigger] results[i] matches VerifyResult::Valid { references }
                &&& exists|j: int|
                    0 <= j < references@.len() && ((#[trigger] references@[j])@.len() == 0
                        || references@[j]@ == "#"@ + id)
            },
    ensures
        results[k] matches VerifyResult::Invalid { reason } ==> first_fault(results, id, what)
            == Some(what + " signature invalid: "@ + reason@),
        results[k] matches VerifyResult::Valid { references } ==> ((forall|j: int|
            0 <= j < references@.len() ==> (#[trigger] references@[j])@.len() > 0
                && references@[j]@ != "#"@ + id) ==> first_fault(results, id, what) == Some(
            what + " signature did not reference the message (XML Signature Wrapping)"@,
        )),
    decreases k,
{
    lemma_all_for(results, id, 0);
    if k > 0 {
        let rest = results.skip(1);
        assert(rest[k - 1] == results[k]);
        assert forall|i: int| 0 <= i < k - 1 implies {
            &&& #[trigger] rest[i] matches VerifyResult::Valid { references }
            &&& exists|j: int|
                0 <= j < references@.len() && ((#[trigger] references@[j])@.len() == 0
                    || references@[j]@ == "#"@ + id)
        } by {
            assert(rest[i] == results[i + 1]);
        }
        lemma_first_fault_at(rest, id, what, k - 1);
    }
}

/// What the application reports is answered: its own reply is sent as it is and
/// nothing is written; a refusal of its own is delivered; and for a subject what
/// the engine makes of it is delivered, issued or refused.
pub proof fn law_report_is_answered<
    T,
    R: AttributeRelease + ?Sized,
    N: NameIdConstructor + ?Sized,
    A: AssertionStore + ?Sized,
    F: Fn(&str) -> Result<String, String>,
>(
    e: ResponseEngine<R, N, A, F>,
    p: ResponseParams,
    reported: AuthnSubjectResult<T>,
    reply: SsoReply<T>,
    f: ResponseEngine<R, N, A, F>,
)
    requires
        may_reply(e, p, reported, Ok(reply), f),
    ensures
        match reported {
            AuthnSubjectResult::Redirect(own) => reply == SsoReply::Application(own) && untouched(
                e,
                f,
            ),
            AuthnSubjectResult::Deny(denial) => {
                &&& untouched(e, f)
                &&& reply matches SsoReply::Deliver(r)
                &&& exists|now: Instant, response_id: Seq<char>|
                    {
                        &&& #[trigger] may_deny(
                            *e.signer,
                            e.cert_der_b64@,
                            e.idp_entity_id@,
                            p,
                            denial,
                            now,
                            response_id,
                            Ok::<IssuedResponseView, ProfileErrorView>(r@),
                        )
                        &&& is_new_id(response_id)
                        &&& now.in_range()
                    }
            },
            AuthnSubjectResult::Authenticated(subject) => {
                &&& reply matches SsoReply::Deliver(r)
                &&& exists|
                    now: Instant,
                    response_id: Seq<char>,
                    assertion_id: Seq<char>,
                    out: ResponseOutcomeView,
                |
                    {
                        &&& #[trigger] may_answer(
                            e,
                            p,
                            subject,
                            now,
                            response_id,
                            assertion_id,
                            Ok::<ResponseOutcomeView, ProfileErrorView>(out),
                            f,
                        )
                        &&& is_new_id(response_id)
                        &&& is_new_id(assertion_id)
                        &&& now.in_range()
                        &&& match out {
                            ResponseOutcomeView::Issued(issued) => r@ == issued,
                            ResponseOutcomeView::Denied { denial, response } => r@ == response,
                        }
                    }
            },
        },
{
    match reported {
        AuthnSubjectResult::Redirect(own) => {},
        AuthnSubjectResult::Deny(denial) => {
            let (now, response_id, issued) = choose|
                now: Instant,
                response_id: Seq<char>,
                issued: Result<IssuedResponseView, ProfileErrorView>,
            |
                {
                    &&& #[trigger] may_deny(
                        *e.signer,
                        e.cert_der_b64@,
                        e.idp_entity_id@,
                        p,
                        denial,
                        now,
                        response_id,
                        issued,
                    )
                    &&& is_new_id(response_id)
                    &&& now.in_range()
                    &&& delivers::<T>(issued, Ok(reply))
                };
            assert(issued == Ok::<IssuedResponseView, ProfileErrorView>(reply->Deliver_0@));
        },
        AuthnSubjectResult::Authenticated(subject) => {
            let (now, response_id, assertion_id, out) = choose|
                now: Instant,
                response_id: Seq<char>,
                assertion_id: Seq<char>,
                out: Result<ResponseOutcomeView, ProfileErrorView>,
            |
                {
                    &&& is_new_id(response_id)
                    &&& is_new_id(assertion_id)
                    &&& now.in_range()
                    &&& #[trigger] may_answer(
                        e,
                        p,
                        subject,
                        now,
                        response_id,
                        assertion_id,
                        out,
                        f,
                    )
                    &&& delivers::<T>(response_in(out), Ok(reply))
                };
            assert(out == Ok::<ResponseOutcomeView, ProfileErrorView>(out->Ok_0));
        },
    }
}

/// An error of the identity database or of a profile is told in words.
pub proof fn law_error_is_told_in_words(value: Seq<char>, what: Seq<char>)
    ensures
        IdentErrorView::UnknownNameId(value).message()
            == "unknown NameID: no local principal for '"@ + value + "'"@,
        IdentErrorView::CreateNotAllowed.message()
            == "NameIDPolicy does not allow creating a new identifier"@,
        IdentErrorView::NoFormat.message()
            == "no NameID format requested and no default configured"@,
        IdentErrorView::Unsupported(what).message() == "unsupported operation: "@ + what,
        ProfileErrorView::AssertionValidation(what).message() == what,
        ProfileErrorView::Other(what).message() == what,
        SamlActixErrorView::Profile(ProfileErrorView::Other(what)).message() == what,
        SamlActixErrorView::UnsupportedBinding(what).message() == what,
        SamlActixErrorView::Configuration(what).message() == what,
        SamlActixErrorView::Internal(what).message() == what,
        refused(what) == SamlActixErrorView::Profile(ProfileErrorView::AssertionValidation(what)),
{
}

/// Where a moment of the response is one that no date can be given for, the
/// application's report is not answered.
pub proof fn law_callback_without_a_date_is_not_answered<F: Fn(&str) -> Result<String, String>>(
    config: IdpConfig,
    ctx: Option<&IdpSigningContext<F>>,
    processed: ProcessedAuthnRequest,
    reported: AuthnCallbackResult,
    client_address: Option<Seq<char>>,
    now: Instant,
    response_id: Seq<char>,
    assertion_id: Seq<char>,
    result: Result<Seq<char>, SamlActixErrorView>,
)
    requires
        callback_answers(
            config,
            ctx,
            processed,
            reported,
            client_address,
            now,
            response_id,
            assertion_id,
            result,
        ),
        ({
            ||| reported.authn_instant is Some && !reported.authn_instant->0.in_range()
            ||| !in_range_nanos(now.nanos + config.assertion_lifetime_seconds * 1_000_000_000)
        }),
    ensures
        result == Err::<Seq<char>, SamlActixErrorView>(
            SamlActixErrorView::Internal("a moment of the response is out of range"@),
        ),
{
}

/// A request is put to the application, or refused, without fail but where the
/// signer fails; its fault is passed on.
pub proof fn law_decision_fails_only_with_the_signer<
    R: AttributeRelease + ?Sized,
    N: NameIdConstructor + ?Sized,
    A: AssertionStore + ?Sized,
    F: Fn(&str) -> Result<String, String>,
>(e: ResponseEngine<R, N, A, F>, p: ResponseParams, d: DispositionView, error: SamlActixError)
    requires
        next_step(e, p, d, Err(error)),
    ensures
        d is Deny,
        exists|m: Seq<char>| error@ == SamlActixErrorView::Profile(
            ProfileErrorView::Other(#[trigger] ("signing failed: "@ + m)),
        ),
{
    if let DispositionView::Deny { denial } = d {
        let (now, response_id, issued) = choose|
            now: Instant,
            response_id: Seq<char>,
            issued: Result<IssuedResponseView, ProfileErrorView>,
        |
            {
                &&& #[trigger] may_deny(
                    *e.signer,
                    e.cert_der_b64@,
                    e.idp_entity_id@,
                    p,
                    denial,
                    now,
                    response_id,
                    issued,
                )
                &&& match issued {
                    Ok(i) => false,
                    Err(fault) => error@ == SamlActixErrorView::Profile(fault),
                }
            };
        lemma_refusal_fails_to_be_signed(e, p, denial, now, response_id, issued->Err_0);
    }
}

/// What the application reports is answered without fail but where the engine
/// faults, and never where the reply is the application's own. A refusal of the
/// application's fails only with the signer.
pub proof fn law_report_fails_only_with_the_engine<
    T,
    R: AttributeRelease + ?Sized,
    N: NameIdConstructor + ?Sized,
    A: AssertionStore + ?Sized,
    F: Fn(&str) -> Result<String, String>,
>(
    e: ResponseEngine<R, N, A, F>,
    p: ResponseParams,
    reported: AuthnSubjectResult<T>,
    error: SamlActixError,
    f: ResponseEngine<R, N, A, F>,
)
    requires
        may_reply(e, p, reported, Err::<SsoReply<T>, SamlActixError>(error), f),
    ensures
        match reported {
            AuthnSubjectResult::Redirect(own) => false,
            AuthnSubjectResult::Deny(denial) => untouched(e, f) && exists|m: Seq<char>| error@
                == SamlActixErrorView::Profile(
                ProfileErrorView::Other(#[trigger] ("signing failed: "@ + m)),
            ),
            AuthnSubjectResult::Authenticated(subject) => exists|
                now: Instant,
                response_id: Seq<char>,
                assertion_id: Seq<char>,
                fault: ProfileErrorView,
            |
                {
                    &&& #[trigger] may_answer(
                        e,
                        p,
                        subject,
                        now,
                        response_id,
                        assertion_id,
                        Err::<ResponseOutcomeView, ProfileErrorView>(fault),
                        f,
                    )
                    &&& error@ == SamlActixErrorView::Profile(fault)
                },
        },
{
    match reported {
        AuthnSubjectResult::Redirect(own) => {},
        AuthnSubjectResult::Deny(denial) => {
            let (now, response_id, issued) = choose|
                now: Instant,
                response_id: Seq<char>,
                issued: Result<IssuedResponseView, ProfileErrorView>,
            |
                {
                    &&& #[trigger] may_deny(
                        *e.signer,
                        e.cert_der_b64@,
                        e.idp_entity_id@,
                        p,
                        denial,
                        now,
                        response_id,
                        issued,
                    )
                    &&& delivers(issued, Err::<SsoReply<T>, SamlActixError>(error))
                };
            assert(issued is Err);
            lemma_refusal_fails_to_be_signed(e, p, denial, now, response_id, issued->Err_0);
        },
        AuthnSubjectResult::Authenticated(subject) => {
            let (now, response_id, assertion_id, out) = choose|
                now: Instant,
                response_id: Seq<char>,
                assertion_id: Seq<char>,
                out: Result<ResponseOutcomeView, ProfileErrorView>,
            |
                {
                    &&& #[trigger] may_answer(
                        e,
                        p,
                        subject,
                        now,
                        response_id,
                        assertion_id,
                        out,
                        f,
                    )
                    &&& delivers(response_in(out), Err::<SsoReply<T>, SamlActixError>(error))
                };
            let fault = out->Err_0;
            assert(out == Err::<ResponseOutcomeView, ProfileErrorView>(fault));
        },
    }
}

/// A check passes exactly where nothing is found against the message; it fails
/// with a refusal, which is told what was found.
pub proof fn law_check_tells_what_was_found(fault: Option<Seq<char>>)
    ensures
        passes_unless(fault) is Ok <==> fault is None,
        fault matches Some(reason) ==> passes_unless(fault) == Err::<(), SamlActixErrorView>(
            SamlActixErrorView::Profile(ProfileErrorView::AssertionValidation(reason)),
        ),
{
}

/// A refused message is told why, and what kind of message it was.
pub proof fn law_refusal_names_its_reason(
    what: Seq<char>,
    id: Seq<char>,
    e: String,
    slo_url: Seq<char>,
    request: LogoutRequest,
    resolve: ArtifactResolve,
    xml: XmlSignatures,
)
    ensures
        xml_fault(XmlSignatures::NoKey, id, what) == Some(
            what
                + " issuer has no usable signing certificate in its metadata; refusing unauthenticated request"@,
        ),
        xml_fault(XmlSignatures::Failed(e), id, what) == Some(
            what + " signature verification failed: "@ + e@,
        ),
        redirect_fault(RedirectSignature::NoKey, what) == Some(
            what + " issuer has no usable signing certificate in metadata"@,
        ),
        redirect_fault(RedirectSignature::Failed(e), what) == Some(
            what + " redirect signature verification failed: "@ + e@,
        ),
        redirect_fault(RedirectSignature::Checked(false), what) == Some(
            what + " redirect signature is invalid"@,
        ),
        request.issuer is None ==> slo_fault(slo_url, request, None, xml, true) == Some(
            SamlActixErrorView::Profile(
                ProfileErrorView::AssertionValidation(
                    "LogoutRequest has no Issuer; refusing to destroy sessions"@,
                ),
            ),
        ),
        request.issuer is Some ==> slo_fault(slo_url, request, None, xml, false) == Some(
            SamlActixErrorView::Profile(
                ProfileErrorView::AssertionValidation(
                    "LogoutRequest issuer "@ + debug_text(request.issuer->0@)
                        + " is not a trusted SP; refusing to destroy sessions"@,
                ),
            ),
        ),
        request.issuer is Some && request.destination is None && !request.has_signature
            ==> slo_fault(slo_url, request, None, xml, true) == Some(
            SamlActixErrorView::Profile(
                ProfileErrorView::AssertionValidation(
                    "LogoutRequest must be signed by its trusted SP"@,
                ),
            ),
        ),
        resolve.issuer is None ==> resolve_fault(resolve, xml, true) == Some(
            "ArtifactResolve has no Issuer; refusing resolution"@,
        ),
        resolve.issuer is Some ==> resolve_fault(resolve, xml, false) == Some(
            "ArtifactResolve issuer "@ + debug_text(resolve.issuer->0@)
                + " is not a trusted SP; refusing resolution"@,
        ),
{
}

} // verus!
