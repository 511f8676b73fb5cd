//! What is decided on a request, told of the request and of what is registered.

use super::denial::Denial;
use super::params::{
    AuthnMethodRefView, DispositionView, EstablishedSessionView, ResponseParams,
};
use super::respond::{class_ref_meets, disposition_of};
use crate::idp::authn_broker::{
    law_strongest_first_is_sorted, meets, picked, referenced, strongest_first, AuthnMethodView,
};
use crate::idp::broker_laws::{
    law_every_method_that_meets_is_picked, law_reference_leads_to_its_method,
};
use crate::saml::request::{AuthnContextComparison, RequestedAuthnContextView};
use crate::saml::time::{Instant, TimeDelta};
use crate::text::opt_text;
use vstd::prelude::*;

verus! {

/// Whether a method reference comes to a class: one that the application
/// supplies comes to the class it gives; one of the broker comes to the class of
/// the first method that has it, and to itself where no method does.
pub open spec fn comes_to_class(
    methods: Seq<AuthnMethodView>,
    method: AuthnMethodRefView,
    class_ref: Seq<char>,
) -> bool {
    match method {
        AuthnMethodRefView::Inline { class_ref: own, authn_authority } => class_ref == own,
        AuthnMethodRefView::BrokerReference(r) => {
            ||| class_ref == r && forall|j: int|
                0 <= j < methods.len() ==> (#[trigger] methods[j]).reference != r
            ||| exists|k: int|
                {
                    &&& 0 <= k < methods.len()
                    &&& (#[trigger] methods[k]).reference == r
                    &&& methods[k].class_ref == class_ref
                    &&& forall|j: int| 0 <= j < k ==> (#[trigger] methods[j]).reference != r
                }
        },
    }
}

/// Whether an authority is the one that a method reference names: that of the
/// reference itself, or that of the method that has it.
pub open spec fn comes_to_authority(
    methods: Seq<AuthnMethodView>,
    method: AuthnMethodRefView,
    authority: Option<Seq<char>>,
) -> bool {
    match method {
        AuthnMethodRefView::Inline { class_ref, authn_authority } => authority == authn_authority,
        AuthnMethodRefView::BrokerReference(r) => {
            ||| authority is None && forall|j: int|
                0 <= j < methods.len() ==> (#[trigger] methods[j]).reference != r
            ||| exists|k: int|
                {
                    &&& 0 <= k < methods.len()
                    &&& (#[trigger] methods[k]).reference == r
                    &&& methods[k].authn_authority == authority
                    &&& forall|j: int| 0 <= j < k ==> (#[trigger] methods[j]).reference != r
                }
        },
    }
}

/// A method reference comes to one class and one authority, and those are what
/// it is resolved to.
pub proof fn law_method_is_resolved(
    methods: Seq<AuthnMethodView>,
    method: AuthnMethodRefView,
    class_ref: Seq<char>,
    authority: Option<Seq<char>>,
)
    ensures
        comes_to_class(methods, method, class_ref) <==> method.resolved(methods).0 == class_ref,
        comes_to_authority(methods, method, authority) <==> method.resolved(methods).1 == authority,
{
    if let AuthnMethodRefView::BrokerReference(r) = method {
        law_reference_leads_to_its_method(methods, r);
        let at = referenced(methods, r) as int;
        if at < methods.len() {
            assert(methods[at].reference == r);
            assert forall|k: int|
                {
                    &&& 0 <= k < methods.len()
                    &&& (#[trigger] methods[k]).reference == r
                    &&& forall|j: int| 0 <= j < k ==> (#[trigger] methods[j]).reference != r
                } implies k == at by {
                if at < k {
                    assert(methods[at].reference != r);
                }
            }
        }
    }
}

proof fn lemma_class_ref_meets(
    methods: Seq<AuthnMethodView>,
    by_level: bool,
    requested: Option<RequestedAuthnContextView>,
    class_ref: Seq<char>,
)
    ensures
        class_ref_meets(methods, by_level, requested, class_ref) <==> {
            ||| requested is None
            ||| exists|i: int|
                0 <= i < methods.len() && (#[trigger] methods[i]).class_ref == class_ref && meets(
                    methods,
                    by_level,
                    requested,
                    methods[i].class_ref,
                    methods[i].level,
                )
        },
{
    let ms = picked(methods, by_level, requested);
    if requested is Some {
        if exists|i: int| 0 <= i < ms.len() && (#[trigger] ms[i]).class_ref == class_ref {
            let i = choose|i: int| 0 <= i < ms.len() && (#[trigger] ms[i]).class_ref == class_ref;
            law_every_method_that_meets_is_picked(methods, by_level, requested, ms[i]);
            assert(ms.contains(ms[i]));
            let k = choose|k: int| 0 <= k < methods.len() && methods[k] == ms[i];
            assert(methods[k].class_ref == class_ref);
        }
        if exists|i: int|
            0 <= i < methods.len() && (#[trigger] methods[i]).class_ref == class_ref && meets(
                methods,
                by_level,
                requested,
                methods[i].class_ref,
                methods[i].level,
            ) {
            let i = choose|i: int|
                0 <= i < methods.len() && (#[trigger] methods[i]).class_ref == class_ref && meets(
                    methods,
                    by_level,
                    requested,
                    methods[i].class_ref,
                    methods[i].level,
                );
            law_every_method_that_meets_is_picked(methods, by_level, requested, methods[i]);
            assert(methods.contains(methods[i]));
            let k = choose|k: int| 0 <= k < ms.len() && ms[k] == methods[i];
            assert(ms[k].class_ref == class_ref);
        }
    }
}

/// A session is reused exactly where there is one, the request forces no
/// authentication, the session has not ended, and no context is requested or
/// the class that its method comes to is that of a registered method that meets
/// the context. It does not matter whether the application or the broker named
/// the method, nor whether the request is passive.
pub proof fn law_session_is_reused_where_it_can_be(
    methods: Seq<AuthnMethodView>,
    by_level: bool,
    requested: Option<RequestedAuthnContextView>,
    force_authn: bool,
    is_passive: bool,
    session: EstablishedSessionView,
    session_span: TimeDelta,
    now: Instant,
    class_ref: Seq<char>,
)
    requires
        comes_to_class(methods, session.authn_method, class_ref),
    ensures
        ({
            let d = disposition_of(
                methods,
                by_level,
                requested,
                force_authn,
                is_passive,
                Some(session),
                session_span,
                now,
            );
            let can_be = {
                &&& !force_authn
                &&& now.nanos < session.authn_instant.nanos + session_span.nanos
                &&& requested is None || exists|i: int|
                    0 <= i < methods.len() && (#[trigger] methods[i]).class_ref == class_ref
                        && meets(
                        methods,
                        by_level,
                        requested,
                        methods[i].class_ref,
                        methods[i].level,
                    )
            };
            &&& can_be ==> d == (DispositionView::ReuseSession { session })
            &&& !can_be ==> !(d is ReuseSession)
        }),
{
    law_method_is_resolved(methods, session.authn_method, class_ref, None);
    lemma_class_ref_meets(methods, by_level, requested, class_ref);
}

/// Where no session is reused, a passive request is refused as not passive. Else
/// it is refused for want of a context where one is requested that no
/// registered method meets, and in all other cases the subject authenticates
/// with the methods that meet it: all of them and no other.
pub proof fn law_request_without_a_session_is_decided(
    methods: Seq<AuthnMethodView>,
    by_level: bool,
    requested: Option<RequestedAuthnContextView>,
    force_authn: bool,
    is_passive: bool,
    session: Option<EstablishedSessionView>,
    session_span: TimeDelta,
    now: Instant,
    m: AuthnMethodView,
)
    ensures
        ({
            let d = disposition_of(
                methods,
                by_level,
                requested,
                force_authn,
                is_passive,
                session,
                session_span,
                now,
            );
            let some_meet = exists|i: int|
                0 <= i < methods.len() && meets(
                    methods,
                    by_level,
                    requested,
                    (#[trigger] methods[i]).class_ref,
                    methods[i].level,
                );
            &&& d is ReuseSession ==> session is Some
            &&& !(d is ReuseSession) && is_passive ==> d == (DispositionView::Deny {
                denial: Denial::NoPassive,
            })
            &&& !(d is ReuseSession) && !is_passive && requested is Some && !some_meet ==> d == (
            DispositionView::Deny { denial: Denial::NoAuthnContext })
            &&& !(d is ReuseSession) && !is_passive && (requested is None || some_meet)
                ==> d is Authenticate
            &&& d matches DispositionView::Authenticate { methods: offered } ==> (offered.contains(m)
                <==> methods.contains(m) && meets(
                methods,
                by_level,
                requested,
                m.class_ref,
                m.level,
            ))
        }),
{
    let ms = picked(methods, by_level, requested);
    law_every_method_that_meets_is_picked(methods, by_level, requested, m);
    law_strongest_first_is_sorted(ms);
    broadcast use vstd::seq_lib::group_to_multiset_ensures;

    assert(strongest_first(ms).to_multiset().contains(m) == ms.to_multiset().contains(m));
    if ms.len() > 0 {
        law_every_method_that_meets_is_picked(methods, by_level, requested, ms[0]);
        assert(ms.contains(ms[0]));
        let k = choose|k: int| 0 <= k < methods.len() && methods[k] == ms[0];
        assert(meets(methods, by_level, requested, methods[k].class_ref, methods[k].level));
    }
    if exists|i: int|
        0 <= i < methods.len() && meets(
            methods,
            by_level,
            requested,
            (#[trigger] methods[i]).class_ref,
            methods[i].level,
        ) {
        let i = choose|i: int|
            0 <= i < methods.len() && meets(
                methods,
                by_level,
                requested,
                (#[trigger] methods[i]).class_ref,
                methods[i].level,
            );
        law_every_method_that_meets_is_picked(methods, by_level, requested, methods[i]);
        assert(methods.contains(methods[i]));
        assert(ms.contains(methods[i]));
    }
}

/// The context that a request asks for: the classes it lists, compared as it
/// says, and exactly where it does not say; none where it lists none.
pub proof fn law_requested_context_is_that_of_the_request(p: ResponseParams, i: int)
    ensures
        p.requested() is None <==> p.processed.requested_authn_context_class_refs@.len() == 0,
        p.requested() matches Some(c) ==> {
            &&& c.class_refs.len() == p.processed.requested_authn_context_class_refs@.len()
            &&& 0 <= i < c.class_refs.len() ==> c.class_refs[i]
                == p.processed.requested_authn_context_class_refs@[i]@
            &&& p.processed.authn_context_comparison is Some ==> c.comparison
                == p.processed.authn_context_comparison->0
            &&& p.processed.authn_context_comparison is None ==> c.comparison
                == AuthnContextComparison::Exact
        },
{
}

/// The NameID policy that counts is the one of the request.
pub proof fn law_name_id_policy_is_that_of_the_request(p: ResponseParams)
    ensures
        p.policy() is Some <==> p.processed.has_name_id_policy,
        p.policy() matches Some(policy) ==> {
            &&& policy.format == opt_text(p.processed.requested_name_id_format)
            &&& policy.sp_name_qualifier == opt_text(p.processed.requested_sp_name_qualifier)
            &&& policy.allow_create == p.processed.allow_create
        },
{
}

/// What each refusal says, in the identifiers of the protocol: what the identity
/// provider cannot do is its own, what the request should not have asked for is
/// the requester's.
pub proof fn law_refusal_tells_its_reason(denial: Denial)
    ensures
        ({
            let status = denial.status_view();
            &&& denial is NoPassive || denial is NoAuthnContext ==> status.code
                == "urn:oasis:names:tc:SAML:2.0:status:Responder"@
            &&& !(denial is NoPassive) && !(denial is NoAuthnContext) ==> status.code
                == "urn:oasis:names:tc:SAML:2.0:status:Requester"@
            &&& denial is NoPassive ==> status.sub_code == Some(
                "urn:oasis:names:tc:SAML:2.0:status:NoPassive"@,
            )
            &&& denial is NoAuthnContext ==> status.sub_code == Some(
                "urn:oasis:names:tc:SAML:2.0:status:NoAuthnContext"@,
            )
            &&& denial is InvalidNameIdPolicy || denial is NameIdCreationNotAllowed
                ==> status.sub_code == Some(
                "urn:oasis:names:tc:SAML:2.0:status:InvalidNameIDPolicy"@,
            )
            &&& denial is MissingRequiredAttributes ==> status.sub_code == Some(
                "urn:oasis:names:tc:SAML:2.0:status:InvalidAttrNameOrValue"@,
            )
            &&& denial is InvalidAttributeConsumingServiceIndex ==> status.sub_code == Some(
                "urn:oasis:names:tc:SAML:2.0:status:RequestUnsupported"@,
            )
            &&& denial is NoPassive ==> status.message == Some(
                "Passive authentication is not possible without a reusable session"@,
            )
            &&& denial is NoAuthnContext ==> status.message == Some(
                "The requested authentication context is unavailable"@,
            )
            &&& denial is InvalidNameIdPolicy ==> status.message == Some(
                "The requested NameID format is not supported"@,
            )
            &&& denial is NameIdCreationNotAllowed ==> status.message == Some(
                "The NameIDPolicy does not allow creating a new identifier"@,
            )
            &&& denial is MissingRequiredAttributes ==> status.message == Some(
                "A required attribute is missing"@,
            )
            &&& denial is InvalidAttributeConsumingServiceIndex ==> status.message == Some(
                "The requested attribute consuming service is unknown"@,
            )
        }),
{
}

} // verus!
