//! What the response engine promises.

use super::denial::Denial;
use super::params::{
    AuthenticatedSubject, DispositionView, EstablishedSessionView, IssuedResponseView,
    ResponseOutcomeView, ResponseParams,
};
use super::release::{AttributeRelease, ChainedRelease, PassThroughRelease};
use super::respond::{
    answered_after_name_id, answered_after_release, asks_for_anothers, assertion_end, authn_moment,
    authorities, class_ref_meets, denial_response, disposition_of, kept_assertions, may_answer,
    may_deny, may_issue, name_id_denial, names_of, no_name_id, refused_with, release_verdict,
    success_response, untouched, ResponseEngine,
};
use crate::digest::is_new_id;
use crate::idp::assertion_store::AssertionStore;
use crate::idp::authn_broker::{law_strongest_first_is_sorted, meets, picked, AuthnMethodView};
use crate::idp::entity_category::{SubjectIdReq, SUBJECT_ID_REQ_ATTR};
use crate::idp::ident::db::{constructed, IdentDb, NameIdConstructor, NamingState};
use crate::idp::ident::error::IdentErrorView;
use crate::idp::ident::laws::law_allow_create;
use crate::idp::ident::store::IdentityStore;
use crate::idp::policy::{
    chosen_requests, missing, released_all, requests_with, PolicyEntry, PolicyErrorView,
    ReleasePolicy,
};
use crate::saml::attribute::{attribute_views, AttributeView, RequestedAttributeView};
use crate::saml::constants::{ENTITY_CATEGORY_ATTR, NAMEID_TRANSIENT};
use crate::saml::error::ProfileErrorView;
use crate::saml::name_id::NameIdView;
use crate::saml::placement::{
    after_assertion_issuer, after_issuer, law_assertion_signature_follows_its_issuer,
    law_response_signature_follows_its_issuer, up_to_assertion_issuer, up_to_issuer,
};
use crate::saml::request::RequestedAuthnContextView;
use crate::saml::response::{AssertionView, ResponseView};
use crate::saml::response_xml::response_xml;
use crate::saml::signing::{
    as_fault, may_be_signed, may_sign_element, may_sign_if, may_sign_response, template, SamlSigner,
};
use crate::saml::time::{Instant, TimeDelta};
use crate::text::opt_text;
use vstd::prelude::*;

verus! {

/// A forced authentication never reuses a session, and neither does a session
/// that has ended or whose method does not meet the request.
pub proof fn law_reuse_is_earned(
    methods: Seq<AuthnMethodView>,
    by_level: bool,
    requested: Option<RequestedAuthnContextView>,
    force_authn: bool,
    is_passive: bool,
    session: Option<EstablishedSessionView>,
    session_span: TimeDelta,
    now: Instant,
)
    ensures
        disposition_of(
            methods,
            by_level,
            requested,
            force_authn,
            is_passive,
            session,
            session_span,
            now,
        ) is ReuseSession ==> {
            &&& session is Some
            &&& !force_authn
            &&& now.nanos < session->0.authn_instant.nanos + session_span.nanos
            &&& class_ref_meets(
                methods,
                by_level,
                requested,
                session->0.authn_method.resolved(methods).0,
            )
        },
{
}

/// A passive request never asks the subject to authenticate: it reuses a
/// session or is refused as not passive.
pub proof fn law_passive_never_interacts(
    methods: Seq<AuthnMethodView>,
    by_level: bool,
    requested: Option<RequestedAuthnContextView>,
    force_authn: bool,
    session: Option<EstablishedSessionView>,
    session_span: TimeDelta,
    now: Instant,
)
    ensures
        ({
            let d = disposition_of(
                methods,
                by_level,
                requested,
                force_authn,
                true,
                session,
                session_span,
                now,
            );
            d is ReuseSession || d == (DispositionView::Deny { denial: Denial::NoPassive })
        }),
{
}

/// Forced and passive at once is always refused.
pub proof fn law_forced_and_passive_is_refused(
    methods: Seq<AuthnMethodView>,
    by_level: bool,
    requested: Option<RequestedAuthnContextView>,
    session: Option<EstablishedSessionView>,
    session_span: TimeDelta,
    now: Instant,
)
    ensures
        disposition_of(methods, by_level, requested, true, true, session, session_span, now) == (
        DispositionView::Deny { denial: Denial::NoPassive }),
{
}

/// The methods a subject is asked to authenticate with all meet the request,
/// and come strongest first; a request is refused for want of a method only
/// where none meets it.
pub proof fn law_offered_methods_meet_the_request(
    methods: Seq<AuthnMethodView>,
    by_level: bool,
    requested: Option<RequestedAuthnContextView>,
    force_authn: bool,
    is_passive: bool,
    session: Option<EstablishedSessionView>,
    session_span: TimeDelta,
    now: Instant,
)
    ensures
        disposition_of(
            methods,
            by_level,
            requested,
            force_authn,
            is_passive,
            session,
            session_span,
            now,
        ) matches DispositionView::Authenticate { methods: offered } ==> {
            &&& offered.to_multiset() == picked(methods, by_level, requested).to_multiset()
            &&& forall|i: int, j: int|
                0 <= i < j < offered.len() ==> (#[trigger] offered[i]).level >= (
                #[trigger] offered[j]).level
        },
        disposition_of(
            methods,
            by_level,
            requested,
            force_authn,
            is_passive,
            session,
            session_span,
            now,
        ) == (DispositionView::Deny { denial: Denial::NoAuthnContext }) ==> forall|i: int|
            0 <= i < methods.len() ==> !meets(
                methods,
                by_level,
                requested,
                (#[trigger] methods[i]).class_ref,
                methods[i].level,
            ),
{
    law_strongest_first_is_sorted(picked(methods, by_level, requested));
    let pred = |m: AuthnMethodView| meets(methods, by_level, requested, m.class_ref, m.level);
    if picked(methods, by_level, requested).len() == 0 {
        assert forall|i: int| 0 <= i < methods.len() implies !meets(
            methods,
            by_level,
            requested,
            (#[trigger] methods[i]).class_ref,
            methods[i].level,
        ) by {
            if pred(methods[i]) {
                methods.lemma_filter_contains(pred, i);
                assert(picked(methods, by_level, requested).contains(methods[i]));
            }
        }
    }
}

/// Passing attributes through first changes nothing of what follows.
pub proof fn law_pass_through_is_neutral<B: AttributeRelease>(
    chain: ChainedRelease<PassThroughRelease, B>,
    attributes: Seq<AttributeView>,
    sp: Seq<char>,
    categories: Seq<Seq<char>>,
    required: Seq<RequestedAttributeView>,
    optional: Seq<RequestedAttributeView>,
    req: SubjectIdReq,
    result: Result<Seq<AttributeView>, PolicyErrorView>,
)
    ensures
        chain.may_release(attributes, sp, categories, required, optional, req, result)
            == chain.second().may_release(
            attributes,
            sp,
            categories,
            required,
            optional,
            req,
            result,
        ),
{
    let middle = Ok::<Seq<AttributeView>, PolicyErrorView>(attributes);
    assert(chain.first().may_release(
        attributes,
        sp,
        categories,
        required,
        optional,
        req,
        middle,
    ));
}

/// Passing attributes through afterwards changes nothing of what came before.
pub proof fn law_pass_through_adds_nothing<A: AttributeRelease>(
    chain: ChainedRelease<A, PassThroughRelease>,
    attributes: Seq<AttributeView>,
    sp: Seq<char>,
    categories: Seq<Seq<char>>,
    required: Seq<RequestedAttributeView>,
    optional: Seq<RequestedAttributeView>,
    req: SubjectIdReq,
    result: Result<Seq<AttributeView>, PolicyErrorView>,
)
    ensures
        chain.may_release(attributes, sp, categories, required, optional, req, result)
            == chain.first().may_release(
            attributes,
            sp,
            categories,
            required,
            optional,
            req,
            result,
        ),
{
    if chain.first().may_release(attributes, sp, categories, required, optional, req, result) {
        if let Ok(released) = result {
            assert(chain.second().may_release(
                released,
                sp,
                categories,
                required,
                optional,
                req,
                result,
            ));
        }
    }
}

/// A refusal is always signed: what is sent is what the signer made of the
/// refusal with an empty signature over the response, right after its Issuer.
/// Only a signer that fails keeps a refusal from being sent.
pub proof fn law_denial_is_signed<F: Fn(&str) -> Result<String, String>>(
    signer: SamlSigner<F>,
    cert: Seq<char>,
    idp: Seq<char>,
    p: ResponseParams,
    denial: Denial,
    now: Instant,
    response_id: Seq<char>,
    result: Result<IssuedResponseView, ProfileErrorView>,
)
    requires
        may_deny(signer, cert, idp, p, denial, now, response_id, result),
    ensures
        ({
            let response = denial_response(idp, p, denial, now, response_id);
            let unsigned = up_to_issuer(response) + template(response_id, cert, signer.method())
                + after_issuer(response);
            exists|r: Result<String, String>| #[trigger]
                signer.may_sign(unsigned, r) && match r {
                    Ok(s) => result matches Ok(issued) && issued.xml == s@,
                    Err(_) => result is Err,
                }
        }),
{
    let response = denial_response(idp, p, denial, now, response_id);
    let piece = template(response_id, cert, signer.method());
    law_response_signature_follows_its_issuer(response, piece);
    let signed = choose|signed: Result<Seq<char>, ProfileErrorView>|
        {
            &&& #[trigger] may_be_signed(
                signer,
                cert,
                response_xml(response),
                response_id,
                None,
                false,
                true,
                signed,
            )
            &&& result == match signed {
                Ok(xml) => Ok::<IssuedResponseView, ProfileErrorView>(
                    IssuedResponseView {
                        xml,
                        response_id,
                        assertion_id: None,
                        name_id: no_name_id(),
                        session_index: None,
                        not_on_or_after: now,
                        released_attribute_names: Seq::empty(),
                    },
                ),
                Err(e) => Err(e),
            }
        };
    let r = choose|r: Result<String, String>| #[trigger]
        may_sign_response(
            signer,
            cert,
            response_xml(response),
            response_id,
            None,
            false,
            true,
            r,
        ) && signed == as_fault(r);
    assert(may_sign_element(signer, cert, response_xml(response), response_id, r));
}

/// What is issued meets the request: the authentication context that was asked
/// for, what is required of the attributes where that is enforced, and no other
/// service provider's NameID, unless it is transient. It tells the same moment
/// that the assertion does, and what is kept is what was issued.
pub proof fn law_issued_meets_the_request<
    R: AttributeRelease + ?Sized,
    N: NameIdConstructor + ?Sized,
    A: AssertionStore + ?Sized,
    F: Fn(&str) -> Result<String, String>,
>(
    e: ResponseEngine<R, N, A, F>,
    p: ResponseParams,
    s: AuthenticatedSubject,
    now: Instant,
    response_id: Seq<char>,
    assertion_id: Seq<char>,
    issued: IssuedResponseView,
    f: ResponseEngine<R, N, A, F>,
)
    requires
        may_answer(
            e,
            p,
            s,
            now,
            response_id,
            assertion_id,
            Ok::<ResponseOutcomeView, ProfileErrorView>(ResponseOutcomeView::Issued(issued)),
            f,
        ),
    ensures
        class_ref_meets(
            e.broker.methods(),
            e.broker.by_level(),
            p.requested(),
            s.authn_method@.resolved(e.broker.methods()).0,
        ),
        !asks_for_anothers(
            p.policy(),
            e.decisions.entry_of(p.processed.sp_entity_id@).nameid_format@,
            p.processed.sp_entity_id@,
        ),
        issued.response_id == response_id,
        issued.assertion_id == Some(assertion_id),
        issued.not_on_or_after.nanos == assertion_end(
            e.decisions.entry_of(p.processed.sp_entity_id@),
            now,
        ),
        chosen_requests(
            p.sp_sso.services(),
            p.processed.attribute_consuming_service_index,
        ) matches Some(asked) && exists|attributes: Seq<AttributeView>|
            {
                &&& issued.released_attribute_names == #[trigger] names_of(attributes)
                &&& e.decisions.entry_of(p.processed.sp_entity_id@).fail_on_missing_requested
                    ==> missing(attributes, requests_with(asked, true)) is None
                &&& kept_assertions(f) matches Some(v) ==> v.len() > 0 && v.last().attributes == attributes
            },
        kept_assertions(f) matches Some(v) ==> v.len() > 0 && v.last().id == assertion_id && v.last().name_id
            == issued.name_id && v.last().not_on_or_after == issued.not_on_or_after,
{
    let asked = chosen_requests(
        p.sp_sso.services(),
        p.processed.attribute_consuming_service_index,
    )->0;
    let out = Ok::<ResponseOutcomeView, ProfileErrorView>(ResponseOutcomeView::Issued(issued));
    let released = choose|released: Result<Seq<AttributeView>, PolicyErrorView>|
        {
            &&& #[trigger] e.release.may_release(
                attribute_views(s.attributes@),
                p.processed.sp_entity_id@,
                p.entity_values(ENTITY_CATEGORY_ATTR@),
                requests_with(asked, true),
                requests_with(asked, false),
                SubjectIdReq::of_values(p.entity_values(SUBJECT_ID_REQ_ATTR@)),
                released,
            )
            &&& answered_after_release(
                e,
                p,
                s,
                requests_with(asked, true),
                released,
                now,
                response_id,
                assertion_id,
                out,
                f,
            )
        };
    let attributes = released->Ok_0;
    assert(issued.released_attribute_names == names_of(attributes));
}

/// What is issued is bound to the request: it answers that request, goes where
/// the request has it go, is for the service provider that sent it, and says
/// how, when and through whom the subject authenticated. The session ends when
/// its lifetime from then is over, whenever the response is made.
pub proof fn law_issued_is_bound_to_the_request<
    R: AttributeRelease + ?Sized,
    N: NameIdConstructor + ?Sized,
    A: AssertionStore + ?Sized,
    F: Fn(&str) -> Result<String, String>,
>(
    e: ResponseEngine<R, N, A, F>,
    p: ResponseParams,
    s: AuthenticatedSubject,
    now: Instant,
    response_id: Seq<char>,
    assertion_id: Seq<char>,
    issued: IssuedResponseView,
    f: ResponseEngine<R, N, A, F>,
)
    requires
        may_answer(
            e,
            p,
            s,
            now,
            response_id,
            assertion_id,
            Ok::<ResponseOutcomeView, ProfileErrorView>(ResponseOutcomeView::Issued(issued)),
            f,
        ),
    ensures
        ({
            let entry = e.decisions.entry_of(p.processed.sp_entity_id@);
            let (class_ref, authority) = s.authn_method@.resolved(e.broker.methods());
            exists|r: ResponseView|
                {
                    &&& #[trigger] may_issue(
                        *e.signer,
                        e.cert_der_b64@,
                        entry,
                        p.sp_sso.wants_assertions_signed(),
                        r,
                        Ok::<IssuedResponseView, ProfileErrorView>(issued),
                    )
                    &&& r.issuer == e.idp_entity_id@
                    &&& r.in_response_to == Some(p.processed.request_id@)
                    &&& r.destination == p.processed.acs_url@
                    &&& r.assertion matches Some(a)
                    &&& a.issuer == e.idp_entity_id@
                    &&& a.in_response_to == Some(p.processed.request_id@)
                    &&& a.recipient == p.processed.acs_url@
                    &&& a.audience == p.processed.sp_entity_id@
                    &&& a.name_id == issued.name_id
                    &&& a.session_index == opt_text(s.session_index)
                    &&& a.authn_context_class_ref == Some(class_ref)
                    &&& a.authenticating_authorities == authorities(authority)
                    &&& a.authn_instant == authn_moment(s, now)
                    &&& a.session_not_on_or_after matches Some(end)
                    &&& end.nanos == authn_moment(s, now).nanos + entry.session_span().nanos
                }
        }),
{
    let entry = e.decisions.entry_of(p.processed.sp_entity_id@);
    let asked = chosen_requests(
        p.sp_sso.services(),
        p.processed.attribute_consuming_service_index,
    )->0;
    let out = Ok::<ResponseOutcomeView, ProfileErrorView>(ResponseOutcomeView::Issued(issued));
    let released = choose|released: Result<Seq<AttributeView>, PolicyErrorView>|
        {
            &&& #[trigger] e.release.may_release(
                attribute_views(s.attributes@),
                p.processed.sp_entity_id@,
                p.entity_values(ENTITY_CATEGORY_ATTR@),
                requests_with(asked, true),
                requests_with(asked, false),
                SubjectIdReq::of_values(p.entity_values(SUBJECT_ID_REQ_ATTR@)),
                released,
            )
            &&& answered_after_release(
                e,
                p,
                s,
                requests_with(asked, true),
                released,
                now,
                response_id,
                assertion_id,
                out,
                f,
            )
        };
    let r = success_response(
        e.idp_entity_id@,
        entry,
        e.broker.methods(),
        p,
        s,
        released->Ok_0,
        issued.name_id,
        now,
        response_id,
        assertion_id,
    );
    assert(may_issue(
        *e.signer,
        e.cert_der_b64@,
        entry,
        p.sp_sso.wants_assertions_signed(),
        r,
        Ok::<IssuedResponseView, ProfileErrorView>(issued),
    ));
}

/// An assertion that is to be signed is: the signer gets the response with an
/// empty signature over the assertion, right after the assertion's own Issuer,
/// and nothing is issued where it fails. Where the response is not signed as
/// well, what the signer makes of it is what is issued.
pub proof fn law_assertion_is_signed<F: Fn(&str) -> Result<String, String>>(
    signer: SamlSigner<F>,
    cert: Seq<char>,
    entry: PolicyEntry,
    want_assertions_signed: bool,
    response: ResponseView,
    a: AssertionView,
    result: Result<IssuedResponseView, ProfileErrorView>,
)
    requires
        may_issue(signer, cert, entry, want_assertions_signed, response, result),
        entry.sign.resolved(want_assertions_signed).sign_assertion,
        response.assertion == Some(a),
        is_new_id(response.id),
        is_new_id(a.id),
        response.id != a.id,
    ensures
        ({
            let unsigned = up_to_assertion_issuer(response, a) + template(
                a.id,
                cert,
                signer.method(),
            ) + after_assertion_issuer(a);
            exists|r: Result<String, String>| #[trigger]
                signer.may_sign(unsigned, r) && match r {
                    Ok(s) => !entry.sign.resolved(want_assertions_signed).sign_response ==> (
                    result matches Ok(issued) && issued.xml == s@),
                    Err(_) => result is Err,
                }
        }),
{
    let sign = entry.sign.resolved(want_assertions_signed);
    law_assertion_signature_follows_its_issuer(
        response,
        a,
        template(a.id, cert, signer.method()),
    );
    let signed = choose|signed: Result<Seq<char>, ProfileErrorView>|
        {
            &&& #[trigger] may_be_signed(
                signer,
                cert,
                response_xml(response),
                response.id,
                Some(a.id),
                sign.sign_assertion,
                sign.sign_response,
                signed,
            )
            &&& result == match signed {
                Ok(xml) => Ok::<IssuedResponseView, ProfileErrorView>(
                    IssuedResponseView {
                        xml,
                        response_id: response.id,
                        assertion_id: Some(a.id),
                        name_id: a.name_id,
                        session_index: a.session_index,
                        not_on_or_after: a.not_on_or_after,
                        released_attribute_names: names_of(a.attributes),
                    },
                ),
                Err(e) => Err(e),
            }
        };
    let r = choose|r: Result<String, String>| #[trigger]
        may_sign_response(
            signer,
            cert,
            response_xml(response),
            response.id,
            Some(a.id),
            sign.sign_assertion,
            sign.sign_response,
            r,
        ) && signed == as_fault(r);
    let inner = choose|inner: Result<String, String>|
        {
            &&& #[trigger] may_sign_if(
                signer,
                cert,
                response_xml(response),
                Some(a.id),
                sign.sign_assertion,
                inner,
            )
            &&& match inner {
                Ok(mid) => may_sign_if(
                    signer,
                    cert,
                    mid@,
                    Some(response.id),
                    sign.sign_response,
                    r,
                ),
                Err(e) => r matches Err(e2) && e2@ == e@,
            }
        };
    assert(may_sign_element(signer, cert, response_xml(response), a.id, inner));
}

/// A response that is to be signed is, and where its assertion is not, the
/// signer gets the response with an empty signature over it right after its own
/// Issuer, and what the signer makes of it is what is issued.
pub proof fn law_response_is_signed<F: Fn(&str) -> Result<String, String>>(
    signer: SamlSigner<F>,
    cert: Seq<char>,
    entry: PolicyEntry,
    want_assertions_signed: bool,
    response: ResponseView,
    result: Result<IssuedResponseView, ProfileErrorView>,
)
    requires
        may_issue(signer, cert, entry, want_assertions_signed, response, result),
        entry.sign.resolved(want_assertions_signed).sign_response,
        !entry.sign.resolved(want_assertions_signed).sign_assertion,
        response.assertion is Some,
    ensures
        ({
            let unsigned = up_to_issuer(response) + template(response.id, cert, signer.method())
                + after_issuer(response);
            exists|r: Result<String, String>| #[trigger]
                signer.may_sign(unsigned, r) && match r {
                    Ok(s) => result matches Ok(issued) && issued.xml == s@,
                    Err(_) => result is Err,
                }
        }),
{
    let a = response.assertion->0;
    law_response_signature_follows_its_issuer(
        response,
        template(response.id, cert, signer.method()),
    );
    let signed = choose|signed: Result<Seq<char>, ProfileErrorView>|
        {
            &&& #[trigger] may_be_signed(
                signer,
                cert,
                response_xml(response),
                response.id,
                Some(a.id),
                false,
                true,
                signed,
            )
            &&& result == match signed {
                Ok(xml) => Ok::<IssuedResponseView, ProfileErrorView>(
                    IssuedResponseView {
                        xml,
                        response_id: response.id,
                        assertion_id: Some(a.id),
                        name_id: a.name_id,
                        session_index: a.session_index,
                        not_on_or_after: a.not_on_or_after,
                        released_attribute_names: names_of(a.attributes),
                    },
                ),
                Err(e) => Err(e),
            }
        };
    let r = choose|r: Result<String, String>| #[trigger]
        may_sign_response(
            signer,
            cert,
            response_xml(response),
            response.id,
            Some(a.id),
            false,
            true,
            r,
        ) && signed == as_fault(r);
    let inner = choose|inner: Result<String, String>|
        {
            &&& #[trigger] may_sign_if(
                signer,
                cert,
                response_xml(response),
                Some(a.id),
                false,
                inner,
            )
            &&& match inner {
                Ok(mid) => may_sign_if(signer, cert, mid@, Some(response.id), true, r),
                Err(e) => r matches Err(e2) && e2@ == e@,
            }
        };
    assert(may_sign_element(signer, cert, response_xml(response), response.id, r));
}

/// What the naming of an engine rests on.
pub open spec fn naming_state<
    R: AttributeRelease + ?Sized,
    N: NameIdConstructor + ?Sized,
    A: AssertionStore + ?Sized,
    F: Fn(&str) -> Result<String, String>,
>(e: ResponseEngine<R, N, A, F>) -> NamingState {
    e.idents.state()
}

/// A NameID that lasts goes only to the service provider it belongs to: one
/// that the identity database constructs and that is issued is qualified by the
/// entity ID that the request came from, whatever its format, unless it is
/// transient.
pub proof fn law_lasting_name_id_goes_to_its_owner<
    R: AttributeRelease + ?Sized,
    S: IdentityStore,
    A: AssertionStore + ?Sized,
    F: Fn(&str) -> Result<String, String>,
>(
    e: ResponseEngine<R, IdentDb<S>, A, F>,
    p: ResponseParams,
    s: AuthenticatedSubject,
    now: Instant,
    response_id: Seq<char>,
    assertion_id: Seq<char>,
    issued: IssuedResponseView,
    f: ResponseEngine<R, IdentDb<S>, A, F>,
)
    requires
        may_answer(
            e,
            p,
            s,
            now,
            response_id,
            assertion_id,
            Ok::<ResponseOutcomeView, ProfileErrorView>(ResponseOutcomeView::Issued(issued)),
            f,
        ),
        issued.name_id.format != Some(NAMEID_TRANSIENT@),
    ensures
        issued.name_id.sp_name_qualifier == Some(p.processed.sp_entity_id@),
        issued.name_id.name_qualifier == Some(naming_state(e).idp),
{
    let sp = p.processed.sp_entity_id@;
    let format = e.decisions.entry_of(sp).nameid_format@;
    assert(e.idents.may_construct(
        s.subject_id@,
        sp,
        p.policy(),
        Some(format),
        Ok::<NameIdView, IdentErrorView>(issued.name_id),
        f.idents.state(),
    ));
    law_allow_create(
        e.idents.contents(),
        f.idents.contents(),
        e.idents.idp(),
        e.idents.email_domain(),
        s.subject_id@,
        sp,
        p.policy(),
        Some(format),
        Ok::<NameIdView, IdentErrorView>(issued.name_id),
    );
}

/// Whether a request is refused before any NameID is asked for: it names no
/// attribute consuming service that there is, nothing can be released that it
/// may be answered with, or it asks for another entity's NameID.
pub open spec fn refused_before_naming<
    R: AttributeRelease + ?Sized,
    N: NameIdConstructor + ?Sized,
    A: AssertionStore + ?Sized,
    F: Fn(&str) -> Result<String, String>,
>(e: ResponseEngine<R, N, A, F>, p: ResponseParams, s: AuthenticatedSubject) -> bool {
    let entry = e.decisions.entry_of(p.processed.sp_entity_id@);
    match chosen_requests(
        p.sp_sso.services(),
        p.processed.attribute_consuming_service_index,
    ) {
        None => true,
        Some(asked) => {
            ||| asks_for_anothers(p.policy(), entry.nameid_format@, p.processed.sp_entity_id@)
            ||| forall|released: Result<Seq<AttributeView>, PolicyErrorView>|
                #[trigger] e.release.may_release(
                    attribute_views(s.attributes@),
                    p.processed.sp_entity_id@,
                    p.entity_values(ENTITY_CATEGORY_ATTR@),
                    requests_with(asked, true),
                    requests_with(asked, false),
                    SubjectIdReq::of_values(p.entity_values(SUBJECT_ID_REQ_ATTR@)),
                    released,
                ) ==> release_verdict(
                    entry.fail_on_missing_requested,
                    requests_with(asked, true),
                    released,
                ) is Err
        },
    }
}

/// A request that is refused before any NameID is asked for leaves no trace:
/// nothing is issued, no NameID is minted and no assertion is kept.
pub proof fn law_early_refusal_leaves_no_trace<
    R: AttributeRelease + ?Sized,
    N: NameIdConstructor + ?Sized,
    A: AssertionStore + ?Sized,
    F: Fn(&str) -> Result<String, String>,
>(
    e: ResponseEngine<R, N, A, F>,
    p: ResponseParams,
    s: AuthenticatedSubject,
    now: Instant,
    response_id: Seq<char>,
    assertion_id: Seq<char>,
    out: Result<ResponseOutcomeView, ProfileErrorView>,
    f: ResponseEngine<R, N, A, F>,
)
    requires
        may_answer(e, p, s, now, response_id, assertion_id, out, f),
        refused_before_naming(e, p, s),
    ensures
        untouched(e, f),
        !(out matches Ok(ResponseOutcomeView::Issued(_))),
{
}

/// The identity database is asked for a NameID at most once for a request, for
/// the subject, the service provider and the policy of that request. Where it
/// is not asked, nothing is written; where it gives none, the request is
/// refused: for want of leave to create one, or for its policy.
pub proof fn law_name_id_is_constructed_once<
    R: AttributeRelease + ?Sized,
    S: IdentityStore,
    A: AssertionStore + ?Sized,
    F: Fn(&str) -> Result<String, String>,
>(
    e: ResponseEngine<R, IdentDb<S>, A, F>,
    p: ResponseParams,
    s: AuthenticatedSubject,
    now: Instant,
    response_id: Seq<char>,
    assertion_id: Seq<char>,
    out: Result<ResponseOutcomeView, ProfileErrorView>,
    f: ResponseEngine<R, IdentDb<S>, A, F>,
)
    requires
        may_answer(e, p, s, now, response_id, assertion_id, out, f),
    ensures
        untouched(e, f) || exists|named: Result<NameIdView, IdentErrorView>|
            {
                &&& #[trigger] constructed(
                    naming_state(e).contents,
                    naming_state(f).contents,
                    naming_state(e).idp,
                    naming_state(e).email_domain,
                    s.subject_id@,
                    p.processed.sp_entity_id@,
                    p.policy(),
                    Some(e.decisions.entry_of(p.processed.sp_entity_id@).nameid_format@),
                    named,
                )
                &&& named matches Err(error) ==> refused_with(
                    e,
                    p,
                    name_id_denial(error),
                    now,
                    response_id,
                    out,
                )
                &&& out matches Ok(ResponseOutcomeView::Issued(issued)) ==> named == Ok::<
                    NameIdView,
                    IdentErrorView,
                >(issued.name_id)
            },
{
    if !untouched(e, f) {
        let asked = chosen_requests(
            p.sp_sso.services(),
            p.processed.attribute_consuming_service_index,
        )->0;
        let released = choose|released: Result<Seq<AttributeView>, PolicyErrorView>|
            {
                &&& #[trigger] e.release.may_release(
                    attribute_views(s.attributes@),
                    p.processed.sp_entity_id@,
                    p.entity_values(ENTITY_CATEGORY_ATTR@),
                    requests_with(asked, true),
                    requests_with(asked, false),
                    SubjectIdReq::of_values(p.entity_values(SUBJECT_ID_REQ_ATTR@)),
                    released,
                )
                &&& answered_after_release(
                    e,
                    p,
                    s,
                    requests_with(asked, true),
                    released,
                    now,
                    response_id,
                    assertion_id,
                    out,
                    f,
                )
            };
        let entry = e.decisions.entry_of(p.processed.sp_entity_id@);
        let attributes = release_verdict(
            entry.fail_on_missing_requested,
            requests_with(asked, true),
            released,
        )->Ok_0;
        let named = choose|named: Result<NameIdView, IdentErrorView>|
            {
                &&& #[trigger] e.idents.may_construct(
                    s.subject_id@,
                    p.processed.sp_entity_id@,
                    p.policy(),
                    Some(entry.nameid_format@),
                    named,
                    f.idents.state(),
                )
                &&& answered_after_name_id(
                    e,
                    p,
                    s,
                    attributes,
                    named,
                    now,
                    response_id,
                    assertion_id,
                    out,
                    f,
                )
            };
        assert(constructed(
            naming_state(e).contents,
            naming_state(f).contents,
            naming_state(e).idp,
            naming_state(e).email_domain,
            s.subject_id@,
            p.processed.sp_entity_id@,
            p.policy(),
            Some(entry.nameid_format@),
            named,
        ));
    }
}

/// A chain runs in order: the first release on what is held, the second on what
/// the first gave. What the first refuses is refused, and the second is not
/// asked.
pub proof fn law_chain_runs_in_order<A: AttributeRelease, B: AttributeRelease>(
    chain: ChainedRelease<A, B>,
    attributes: Seq<AttributeView>,
    sp: Seq<char>,
    categories: Seq<Seq<char>>,
    required: Seq<RequestedAttributeView>,
    optional: Seq<RequestedAttributeView>,
    req: SubjectIdReq,
    result: Result<Seq<AttributeView>, PolicyErrorView>,
)
    requires
        chain.may_release(attributes, sp, categories, required, optional, req, result),
    ensures
        exists|middle: Result<Seq<AttributeView>, PolicyErrorView>|
            {
                &&& #[trigger] chain.first().may_release(
                    attributes,
                    sp,
                    categories,
                    required,
                    optional,
                    req,
                    middle,
                )
                &&& middle is Err ==> result == middle
                &&& middle matches Ok(left) ==> chain.second().may_release(
                    left,
                    sp,
                    categories,
                    required,
                    optional,
                    req,
                    result,
                )
            },
{
}

/// Passing through gives what is held, whoever asks and whatever is asked for; a
/// shared release gives what the release gives.
pub proof fn law_pass_through_gives_what_is_held<T: AttributeRelease + ?Sized>(
    pass: PassThroughRelease,
    shared: std::sync::Arc<T>,
    attributes: Seq<AttributeView>,
    sp: Seq<char>,
    categories: Seq<Seq<char>>,
    required: Seq<RequestedAttributeView>,
    optional: Seq<RequestedAttributeView>,
    req: SubjectIdReq,
    result: Result<Seq<AttributeView>, PolicyErrorView>,
)
    ensures
        pass.may_release(attributes, sp, categories, required, optional, req, result) <==> result
            == Ok::<Seq<AttributeView>, PolicyErrorView>(attributes),
        shared.may_release(attributes, sp, categories, required, optional, req, result)
            == (*shared).may_release(
            attributes,
            sp,
            categories,
            required,
            optional,
            req,
            result,
        ),
{
}

/// A policy releases by the entry of the service provider that asks.
pub proof fn law_policy_releases_by_its_entry(
    policy: ReleasePolicy,
    attributes: Seq<AttributeView>,
    sp: Seq<char>,
    categories: Seq<Seq<char>>,
    required: Seq<RequestedAttributeView>,
    optional: Seq<RequestedAttributeView>,
    req: SubjectIdReq,
    out: Seq<AttributeView>,
)
    requires
        policy.may_release(
            attributes,
            sp,
            categories,
            required,
            optional,
            req,
            Ok::<Seq<AttributeView>, PolicyErrorView>(out),
        ),
    ensures
        out == released_all(
            policy.entry_of(sp),
            categories,
            required + optional,
            req,
            attributes,
        ),
{
}

} // verus!
