//! What a request is answered, told of the request, the subject and the setup.

use super::decision_laws::{comes_to_authority, comes_to_class, law_method_is_resolved};
use super::denial::Denial;
use super::params::{
    AuthenticatedSubject, IssuedResponseView, ResponseOutcomeView, ResponseParams,
};
use super::release::AttributeRelease;
use super::laws::naming_state;
use super::respond::{
    answered_after_name_id, answered_after_release, asks_for_anothers, class_ref_meets,
    denial_response, kept_assertions, may_answer, may_deny, may_issue, moments_in_range,
    name_id_denial, names_of, refused_with, release_verdict, same_setup, success_response,
    untouched, RefusalView, ResponseEngine,
};
use crate::idp::assertion_store::AssertionStore;
use crate::idp::authn_broker::{meets, picked};
use crate::idp::broker_laws::law_every_method_that_meets_is_picked;
use crate::idp::entity_category::SubjectIdReq;
use crate::idp::ident::db::NameIdConstructor;
use crate::idp::ident::error::IdentErrorView;
use crate::idp::policy::{chosen_requests, requests_with, PolicyErrorView};
use crate::idp::policy_laws::{is_met_by, law_nothing_is_missing};
use crate::reading::{read, Tag};
use crate::saml::attribute::{attribute_views, AttributeView, RequestedAttributeView};
use crate::saml::error::ProfileErrorView;
use crate::saml::metadata::values_named;
use crate::saml::name_id::NameIdView;
use crate::saml::response::ResponseView;
use crate::saml::response_reading::law_window_is_read;
use crate::saml::response_xml::response_xml;
use crate::saml::signing::{
    as_fault, law_unsigned_stays_as_it_is, may_be_signed, may_sign_response, SamlSigner,
};
use crate::saml::time::{in_range_nanos, Instant, TimeDelta};
use crate::text::opt_text;
use vstd::prelude::*;

verus! {

/// Whether one moment is the end of a span that begins at another: whole
/// seconds of the span count, and a negative span counts as none.
pub open spec fn ends_after(start: Instant, span: TimeDelta, end: Instant) -> bool {
    if span.nanos < 0 {
        end.nanos == start.nanos
    } else {
        &&& end.nanos <= start.nanos + span.nanos
        &&& start.nanos + span.nanos < end.nanos + 1_000_000_000
        &&& (end.nanos - start.nanos) % 1_000_000_000 == 0
    }
}

/// What is issued says what was asked, who asked, and what is known of the
/// subject. The response answers the request and goes where the request has it
/// go; its assertion is for the service provider that sent the request, is valid
/// from now on for the lifetime that is set, and names the class, the authority
/// and the moment of the authentication. It is kept as it is issued.
pub proof fn law_issued_says_what_it_must<
    R: AttributeRelease + ?Sized,
    N: NameIdConstructor + ?Sized,
    A: AssertionStore + ?Sized,
    F: Fn(&str) -> Result<String, String>,
>(
    e: ResponseEngine<R, N, A, F>,
    p: ResponseParams,
    s: AuthenticatedSubject,
    now: Instant,
    response_id: Seq<char>,
    assertion_id: Seq<char>,
    issued: IssuedResponseView,
    f: ResponseEngine<R, N, A, F>,
)
    requires
        may_answer(
            e,
            p,
            s,
            now,
            response_id,
            assertion_id,
            Ok::<ResponseOutcomeView, ProfileErrorView>(ResponseOutcomeView::Issued(issued)),
            f,
        ),
    ensures
        ({
            let entry = e.decisions.entry_of(p.processed.sp_entity_id@);
            let span = if entry.session_lifetime is Some {
                entry.session_lifetime->0
            } else {
                entry.lifetime
            };
            exists|r: ResponseView, wants: bool|
                {
                    &&& #[trigger] may_issue(
                        *e.signer,
                        e.cert_der_b64@,
                        entry,
                        wants,
                        r,
                        Ok::<IssuedResponseView, ProfileErrorView>(issued),
                    )
                    &&& wants <==> p.sp_sso.want_assertions_signed == Some(true)
                    &&& r.id == response_id
                    &&& r.issuer == e.idp_entity_id@
                    &&& r.issue_instant == now
                    &&& r.in_response_to == Some(p.processed.request_id@)
                    &&& r.destination == p.processed.acs_url@
                    &&& r.status.code == "urn:oasis:names:tc:SAML:2.0:status:Success"@
                    &&& r.status.sub_code is None
                    &&& r.status.message is None
                    &&& r.assertion matches Some(a)
                    &&& a.id == assertion_id
                    &&& a.issuer == e.idp_entity_id@
                    &&& a.issue_instant == now
                    &&& ends_after(now, entry.lifetime, a.not_on_or_after)
                    &&& a.in_response_to == Some(p.processed.request_id@)
                    &&& a.recipient == p.processed.acs_url@
                    &&& a.audience == p.processed.sp_entity_id@
                    &&& a.name_id == issued.name_id
                    &&& a.session_index == opt_text(s.session_index)
                    &&& a.client_address is None
                    &&& a.authn_context_class_ref matches Some(class_ref)
                    &&& comes_to_class(e.broker.methods(), s.authn_method@, class_ref)
                    &&& a.authenticating_authorities.len() <= 1
                    &&& comes_to_authority(
                        e.broker.methods(),
                        s.authn_method@,
                        if a.authenticating_authorities.len() == 1 {
                            Some(a.authenticating_authorities[0])
                        } else {
                            None
                        },
                    )
                    &&& a.authn_instant == if s.authn_instant is Some {
                        s.authn_instant->0
                    } else {
                        now
                    }
                    &&& a.session_not_on_or_after matches Some(end)
                    &&& end.nanos == a.authn_instant.nanos + span.nanos
                    &&& issued.response_id == response_id
                    &&& issued.assertion_id == Some(assertion_id)
                    &&& issued.session_index == opt_text(s.session_index)
                    &&& issued.not_on_or_after == a.not_on_or_after
                    &&& issued.released_attribute_names.len() == a.attributes.len()
                    &&& forall|i: int|
                        0 <= i < a.attributes.len() ==> #[trigger] issued.released_attribute_names[i]
                            == a.attributes[i].name
                    &&& kept_assertions(f) is Some ==> kept_assertions(f)->0 == kept_assertions(
                        e,
                    )->0.push(a)
                    &&& read(response_xml(r)).contains(
                        (Tag {
                            name: "saml:Conditions"@,
                            attributes: seq![
                                ("NotBefore"@, now.text()),
                                ("NotOnOrAfter"@, issued.not_on_or_after.text()),
                            ],
                            text: seq![],
                        }),
                    )
                    &&& !entry.sign.response && !entry.sign.assertion && !entry.sign.on_demand
                        ==> issued.xml == response_xml(r)
                }
        }),
{
    let entry = e.decisions.entry_of(p.processed.sp_entity_id@);
    let asked = chosen_requests(
        p.sp_sso.services(),
        p.processed.attribute_consuming_service_index,
    )->0;
    let out = Ok::<ResponseOutcomeView, ProfileErrorView>(ResponseOutcomeView::Issued(issued));
    let released = choose|released: Result<Seq<AttributeView>, PolicyErrorView>|
        {
            &&& #[trigger] e.release.may_release(
                attribute_views(s.attributes@),
                p.processed.sp_entity_id@,
                p.entity_values("http://macedir.org/entity-category"@),
                requests_with(asked, true),
                requests_with(asked, false),
                SubjectIdReq::of_values(
                    p.entity_values("urn:oasis:names:tc:SAML:profiles:subject-id:req"@),
                ),
                released,
            )
            &&& answered_after_release(
                e,
                p,
                s,
                requests_with(asked, true),
                released,
                now,
                response_id,
                assertion_id,
                out,
                f,
            )
        };
    let r = success_response(
        e.idp_entity_id@,
        entry,
        e.broker.methods(),
        p,
        s,
        released->Ok_0,
        issued.name_id,
        now,
        response_id,
        assertion_id,
    );
    let a = r.assertion->0;
    let (class_ref, authority) = s.authn_method@.resolved(e.broker.methods());
    law_method_is_resolved(e.broker.methods(), s.authn_method@, class_ref, authority);
    law_window_is_read(r, a);
    assert(may_issue(
        *e.signer,
        e.cert_der_b64@,
        entry,
        p.sp_sso.wants_assertions_signed(),
        r,
        Ok::<IssuedResponseView, ProfileErrorView>(issued),
    ));
    assert(issued.released_attribute_names == names_of(a.attributes));
    if !entry.sign.response && !entry.sign.assertion && !entry.sign.on_demand {
        let signed = choose|signed: Result<Seq<char>, ProfileErrorView>|
            {
                &&& #[trigger] may_be_signed(
                    *e.signer,
                    e.cert_der_b64@,
                    response_xml(r),
                    r.id,
                    Some(a.id),
                    false,
                    false,
                    signed,
                )
                &&& signed matches Ok(xml) && issued.xml == xml
            };
        law_unsigned_stays_as_it_is(
            *e.signer,
            e.cert_der_b64@,
            response_xml(r),
            r.id,
            Some(a.id),
            signed,
        );
    }
}

/// What is issued holds only what may be released: its attributes are what the
/// release gave for the subject's attributes, the service provider, the
/// categories and the requirement that its metadata publishes, and what the
/// chosen service asks for.
pub proof fn law_issued_holds_what_was_released<
    R: AttributeRelease + ?Sized,
    N: NameIdConstructor + ?Sized,
    A: AssertionStore + ?Sized,
    F: Fn(&str) -> Result<String, String>,
>(
    e: ResponseEngine<R, N, A, F>,
    p: ResponseParams,
    s: AuthenticatedSubject,
    now: Instant,
    response_id: Seq<char>,
    assertion_id: Seq<char>,
    issued: IssuedResponseView,
    f: ResponseEngine<R, N, A, F>,
)
    requires
        may_answer(
            e,
            p,
            s,
            now,
            response_id,
            assertion_id,
            Ok::<ResponseOutcomeView, ProfileErrorView>(ResponseOutcomeView::Issued(issued)),
            f,
        ),
        kept_assertions(e) is Some,
    ensures
        ({
            let asked = chosen_requests(
                p.sp_sso.services(),
                p.processed.attribute_consuming_service_index,
            )->0;
            let kept = kept_assertions(f)->0.last();
            &&& e.release.may_release(
                attribute_views(s.attributes@),
                p.processed.sp_entity_id@,
                p.entity_values("http://macedir.org/entity-category"@),
                requests_with(asked, true),
                requests_with(asked, false),
                SubjectIdReq::of_values(
                    p.entity_values("urn:oasis:names:tc:SAML:profiles:subject-id:req"@),
                ),
                Ok::<Seq<AttributeView>, PolicyErrorView>(kept.attributes),
            )
            &&& e.decisions.entry_of(p.processed.sp_entity_id@).fail_on_missing_requested
                ==> forall|k: int|
                0 <= k < requests_with(asked, true).len() ==> exists|i: int|
                    0 <= i < kept.attributes.len() && is_met_by(
                        #[trigger] requests_with(asked, true)[k],
                        #[trigger] kept.attributes[i],
                    )
        }),
{
    let asked = chosen_requests(
        p.sp_sso.services(),
        p.processed.attribute_consuming_service_index,
    )->0;
    let out = Ok::<ResponseOutcomeView, ProfileErrorView>(ResponseOutcomeView::Issued(issued));
    let released = choose|released: Result<Seq<AttributeView>, PolicyErrorView>|
        {
            &&& #[trigger] e.release.may_release(
                attribute_views(s.attributes@),
                p.processed.sp_entity_id@,
                p.entity_values("http://macedir.org/entity-category"@),
                requests_with(asked, true),
                requests_with(asked, false),
                SubjectIdReq::of_values(
                    p.entity_values("urn:oasis:names:tc:SAML:profiles:subject-id:req"@),
                ),
                released,
            )
            &&& answered_after_release(
                e,
                p,
                s,
                requests_with(asked, true),
                released,
                now,
                response_id,
                assertion_id,
                out,
                f,
            )
        };
    let attributes = released->Ok_0;
    law_nothing_is_missing(attributes, requests_with(asked, true));
    assert(kept_assertions(f)->0.last().attributes == attributes);
    assert(released == Ok::<Seq<AttributeView>, PolicyErrorView>(attributes));
}

/// A release that has everything that is required is never refused, and nothing
/// is refused for what is missing where that does not fail a request. One that
/// itself finds something missing is.
pub proof fn law_complete_release_is_not_refused(
    fail_on_missing: bool,
    required: Seq<RequestedAttributeView>,
    attributes: Seq<AttributeView>,
    name: Seq<char>,
)
    ensures
        ({
            let all_met = forall|k: int|
                0 <= k < required.len() ==> exists|i: int|
                    {
                        &&& 0 <= i < attributes.len()
                        &&& (#[trigger] attributes[i]).name == (
                        #[trigger] required[k]).attribute.name
                        &&& required[k].attribute.values.len() == 0 || exists|j: int, l: int|
                            0 <= j < attributes[i].values.len() && 0 <= l
                                < required[k].attribute.values.len()
                                && #[trigger] attributes[i].values[j]
                                == #[trigger] required[k].attribute.values[l]
                    };
            let verdict = release_verdict(
                fail_on_missing,
                required,
                Ok::<Seq<AttributeView>, PolicyErrorView>(attributes),
            );
            &&& all_met || !fail_on_missing ==> verdict == Ok::<Seq<AttributeView>, RefusalView>(
                attributes,
            )
            &&& !all_met && fail_on_missing ==> verdict == Err::<Seq<AttributeView>, RefusalView>(
                RefusalView::Deny(Denial::MissingRequiredAttributes),
            )
        }),
        release_verdict(
            fail_on_missing,
            required,
            Err::<Seq<AttributeView>, PolicyErrorView>(
                PolicyErrorView::MissingRequiredAttribute(name),
            ),
        ) == Err::<Seq<AttributeView>, RefusalView>(
            RefusalView::Deny(Denial::MissingRequiredAttributes),
        ),
        release_verdict(
            fail_on_missing,
            required,
            Err::<Seq<AttributeView>, PolicyErrorView>(PolicyErrorView::MissingRequiredValue(name)),
        ) == Err::<Seq<AttributeView>, RefusalView>(
            RefusalView::Deny(Denial::MissingRequiredAttributes),
        ),
        release_verdict(
            fail_on_missing,
            required,
            Err::<Seq<AttributeView>, PolicyErrorView>(PolicyErrorView::Misconfigured(name)),
        ) matches Err(RefusalView::Fault(_)),
{
    law_nothing_is_missing(attributes, required);
}

/// A request is refused only for cause. For its attribute consuming service,
/// exactly where it names one that there is not. For what is missing, only where
/// the release says so, or released something that does not meet what is
/// required and that fails the request. For its NameID policy, only where it
/// asks for a lasting NameID of another entity or none could be constructed; for
/// want of leave to create one, only where that is why. For its context, only
/// where it requests one that no registered method of the class that ran meets.
/// It is never refused as not passive here.
pub proof fn law_refused_only_for_cause<
    R: AttributeRelease + ?Sized,
    N: NameIdConstructor + ?Sized,
    A: AssertionStore + ?Sized,
    F: Fn(&str) -> Result<String, String>,
>(
    e: ResponseEngine<R, N, A, F>,
    p: ResponseParams,
    s: AuthenticatedSubject,
    now: Instant,
    response_id: Seq<char>,
    assertion_id: Seq<char>,
    denial: Denial,
    response: IssuedResponseView,
    f: ResponseEngine<R, N, A, F>,
    class_ref: Seq<char>,
)
    requires
        may_answer(
            e,
            p,
            s,
            now,
            response_id,
            assertion_id,
            Ok::<ResponseOutcomeView, ProfileErrorView>(
                ResponseOutcomeView::Denied { denial, response },
            ),
            f,
        ),
        comes_to_class(e.broker.methods(), s.authn_method@, class_ref),
    ensures
        ({
            let sp = p.processed.sp_entity_id@;
            let entry = e.decisions.entry_of(sp);
            let chosen = chosen_requests(
                p.sp_sso.services(),
                p.processed.attribute_consuming_service_index,
            );
            let required = requests_with(chosen->0, true);
            &&& !(denial is NoPassive)
            &&& (denial is InvalidAttributeConsumingServiceIndex) <==> chosen is None
            &&& denial is MissingRequiredAttributes ==> exists|
                released: Result<Seq<AttributeView>, PolicyErrorView>,
            |
                {
                    &&& #[trigger] e.release.may_release(
                        attribute_views(s.attributes@),
                        sp,
                        p.entity_values("http://macedir.org/entity-category"@),
                        required,
                        requests_with(chosen->0, false),
                        SubjectIdReq::of_values(
                            p.entity_values("urn:oasis:names:tc:SAML:profiles:subject-id:req"@),
                        ),
                        released,
                    )
                    &&& match released {
                        Ok(attributes) => entry.fail_on_missing_requested && exists|k: int|
                            {
                                &&& 0 <= k < required.len()
                                &&& forall|i: int|
                                    0 <= i < attributes.len() ==> !is_met_by(
                                        #[trigger] required[k],
                                        #[trigger] attributes[i],
                                    )
                            },
                        Err(error) => !(error is Misconfigured),
                    }
                }
            &&& denial is InvalidNameIdPolicy ==> {
                ||| {
                    &&& p.processed.has_name_id_policy
                    &&& p.processed.requested_sp_name_qualifier matches Some(q)
                    &&& q@ != sp
                    &&& (if p.processed.requested_name_id_format is Some {
                        p.processed.requested_name_id_format->0@
                    } else {
                        entry.nameid_format@
                    }) != "urn:oasis:names:tc:SAML:2.0:nameid-format:transient"@
                }
                ||| exists|error: IdentErrorView|
                    {
                        &&& !(error is CreateNotAllowed)
                        &&& #[trigger] may_name(
                            e,
                            p,
                            s,
                            Err::<NameIdView, IdentErrorView>(error),
                            f,
                        )
                    }
            }
            &&& denial is NameIdCreationNotAllowed ==> may_name(
                e,
                p,
                s,
                Err::<NameIdView, IdentErrorView>(IdentErrorView::CreateNotAllowed),
                f,
            )
            &&& denial is NoAuthnContext ==> p.requested() is Some && forall|i: int|
                0 <= i < e.broker.methods().len() && (#[trigger] e.broker.methods()[i]).class_ref
                    == class_ref ==> !meets(
                    e.broker.methods(),
                    e.broker.by_level(),
                    p.requested(),
                    e.broker.methods()[i].class_ref,
                    e.broker.methods()[i].level,
                )
        }),
{
    let sp = p.processed.sp_entity_id@;
    let entry = e.decisions.entry_of(sp);
    let chosen = chosen_requests(
        p.sp_sso.services(),
        p.processed.attribute_consuming_service_index,
    );
    let out = Ok::<ResponseOutcomeView, ProfileErrorView>(
        ResponseOutcomeView::Denied { denial, response },
    );
    if let Some(asked) = chosen {
        let required = requests_with(asked, true);
        let released = choose|released: Result<Seq<AttributeView>, PolicyErrorView>|
            {
                &&& #[trigger] e.release.may_release(
                    attribute_views(s.attributes@),
                    sp,
                    p.entity_values("http://macedir.org/entity-category"@),
                    required,
                    requests_with(asked, false),
                    SubjectIdReq::of_values(
                        p.entity_values("urn:oasis:names:tc:SAML:profiles:subject-id:req"@),
                    ),
                    released,
                )
                &&& answered_after_release(
                    e,
                    p,
                    s,
                    required,
                    released,
                    now,
                    response_id,
                    assertion_id,
                    out,
                    f,
                )
            };
        let verdict = release_verdict(entry.fail_on_missing_requested, required, released);
        if let Ok(attributes) = released {
            law_nothing_is_missing(attributes, required);
            if verdict is Err {
                let k = choose|k: int|
                    0 <= k < required.len() && !exists|i: int|
                        0 <= i < attributes.len() && is_met_by(
                            #[trigger] required[k],
                            #[trigger] attributes[i],
                        );
                assert forall|i: int| 0 <= i < attributes.len() implies !is_met_by(
                    #[trigger] required[k],
                    #[trigger] attributes[i],
                ) by {}
            }
        }
        if let Ok(attributes) = verdict {
            if !asks_for_anothers(p.policy(), entry.nameid_format@, sp) {
                let named = choose|named: Result<NameIdView, IdentErrorView>|
                    {
                        &&& #[trigger] e.idents.may_construct(
                            s.subject_id@,
                            sp,
                            p.policy(),
                            Some(entry.nameid_format@),
                            named,
                            f.idents.state(),
                        )
                        &&& answered_after_name_id(
                            e,
                            p,
                            s,
                            attributes,
                            named,
                            now,
                            response_id,
                            assertion_id,
                            out,
                            f,
                        )
                    };
                assert(may_name(e, p, s, named, f));
                law_method_is_resolved(e.broker.methods(), s.authn_method@, class_ref, None);
                if named is Ok {
                    lemma_no_method_meets(e, p, class_ref);
                }
            }
        }
    }
}

/// Whether the identity database may have answered as `named`, for the subject
/// and the policy of a request, where the service provider's own entry says
/// which format it takes by default.
pub open spec fn may_name<
    R: AttributeRelease + ?Sized,
    N: NameIdConstructor + ?Sized,
    A: AssertionStore + ?Sized,
    F: Fn(&str) -> Result<String, String>,
>(
    e: ResponseEngine<R, N, A, F>,
    p: ResponseParams,
    s: AuthenticatedSubject,
    named: Result<NameIdView, IdentErrorView>,
    f: ResponseEngine<R, N, A, F>,
) -> bool {
    e.idents.may_construct(
        s.subject_id@,
        p.processed.sp_entity_id@,
        p.policy(),
        Some(e.decisions.entry_of(p.processed.sp_entity_id@).nameid_format@),
        named,
        f.idents.state(),
    )
}

proof fn lemma_no_method_meets<
    R: AttributeRelease + ?Sized,
    N: NameIdConstructor + ?Sized,
    A: AssertionStore + ?Sized,
    F: Fn(&str) -> Result<String, String>,
>(e: ResponseEngine<R, N, A, F>, p: ResponseParams, class_ref: Seq<char>)
    ensures
        !class_ref_meets(e.broker.methods(), e.broker.by_level(), p.requested(), class_ref)
            ==> p.requested() is Some && forall|i: int|
            0 <= i < e.broker.methods().len() && (#[trigger] e.broker.methods()[i]).class_ref
                == class_ref ==> !meets(
                e.broker.methods(),
                e.broker.by_level(),
                p.requested(),
                e.broker.methods()[i].class_ref,
                e.broker.methods()[i].level,
            ),
{
    let methods = e.broker.methods();
    let ms = picked(methods, e.broker.by_level(), p.requested());
    if !class_ref_meets(methods, e.broker.by_level(), p.requested(), class_ref) {
        assert forall|i: int|
            0 <= i < methods.len() && (#[trigger] methods[i]).class_ref == class_ref implies !meets(
            methods,
            e.broker.by_level(),
            p.requested(),
            methods[i].class_ref,
            methods[i].level,
        ) by {
            law_every_method_that_meets_is_picked(
                methods,
                e.broker.by_level(),
                p.requested(),
                methods[i],
            );
            assert(methods.contains(methods[i]));
            if ms.contains(methods[i]) {
                let k = choose|k: int| 0 <= k < ms.len() && ms[k] == methods[i];
                assert(ms[k].class_ref == class_ref);
            }
        }
    }
}

/// A refusal answers the request that it refuses, goes where that request has it
/// go, gives the reason as its status, and asserts nothing.
pub proof fn law_refusal_is_bound_to_the_request<F: Fn(&str) -> Result<String, String>>(
    signer: SamlSigner<F>,
    cert: Seq<char>,
    idp: Seq<char>,
    p: ResponseParams,
    denial: Denial,
    now: Instant,
    response_id: Seq<char>,
    issued: IssuedResponseView,
)
    requires
        may_deny(
            signer,
            cert,
            idp,
            p,
            denial,
            now,
            response_id,
            Ok::<IssuedResponseView, ProfileErrorView>(issued),
        ),
    ensures
        exists|r: ResponseView|
            {
                &&& #[trigger] may_be_signed(
                    signer,
                    cert,
                    response_xml(r),
                    response_id,
                    None,
                    false,
                    true,
                    Ok::<Seq<char>, ProfileErrorView>(issued.xml),
                )
                &&& r.id == response_id
                &&& r.issuer == idp
                &&& r.issue_instant == now
                &&& r.in_response_to == Some(p.processed.request_id@)
                &&& r.destination == p.processed.acs_url@
                &&& r.status == denial.status_view()
                &&& r.assertion is None
            },
        issued.response_id == response_id,
        issued.assertion_id is None,
        issued.session_index is None,
        issued.name_id.value.len() == 0,
        issued.released_attribute_names.len() == 0,
{
    let r = denial_response(idp, p, denial, now, response_id);
    assert(may_be_signed(
        signer,
        cert,
        response_xml(r),
        response_id,
        None,
        false,
        true,
        Ok::<Seq<char>, ProfileErrorView>(issued.xml),
    ));
}

/// Nothing goes wrong but for cause: the release is misconfigured, a moment of
/// the response is one that no date can be given for, or the signer fails. The
/// moments are that of the authentication, the end of the assertion and the end
/// of the session.
pub proof fn law_fault_only_for_cause<
    R: AttributeRelease + ?Sized,
    N: NameIdConstructor + ?Sized,
    A: AssertionStore + ?Sized,
    F: Fn(&str) -> Result<String, String>,
>(
    e: ResponseEngine<R, N, A, F>,
    p: ResponseParams,
    s: AuthenticatedSubject,
    now: Instant,
    response_id: Seq<char>,
    assertion_id: Seq<char>,
    error: ProfileErrorView,
    f: ResponseEngine<R, N, A, F>,
)
    requires
        may_answer(
            e,
            p,
            s,
            now,
            response_id,
            assertion_id,
            Err::<ResponseOutcomeView, ProfileErrorView>(error),
            f,
        ),
    ensures
        ({
            let entry = e.decisions.entry_of(p.processed.sp_entity_id@);
            let at = if s.authn_instant is Some {
                s.authn_instant->0
            } else {
                now
            };
            let span = if entry.session_lifetime is Some {
                entry.session_lifetime->0
            } else {
                entry.lifetime
            };
            let seconds = if entry.lifetime.nanos < 0 {
                0
            } else {
                entry.lifetime.nanos as int / 1_000_000_000
            };
            ||| exists|m: Seq<char>| error
                == ProfileErrorView::Other(#[trigger] ("attribute release failed: "@ + m))
            ||| exists|m: Seq<char>| error
                == ProfileErrorView::Other(#[trigger] ("signing failed: "@ + m))
            ||| {
                &&& error == ProfileErrorView::Other("a moment of the response is out of range"@)
                &&& {
                    ||| !at.in_range()
                    ||| !in_range_nanos(now.nanos + seconds * 1_000_000_000)
                    ||| !in_range_nanos(at.nanos + span.nanos)
                }
            }
        }),
        kept_assertions(f) == kept_assertions(e),
{
    let sp = p.processed.sp_entity_id@;
    let entry = e.decisions.entry_of(sp);
    let chosen = chosen_requests(
        p.sp_sso.services(),
        p.processed.attribute_consuming_service_index,
    );
    let out = Err::<ResponseOutcomeView, ProfileErrorView>(error);
    match chosen {
        None => lemma_refusal_fails_to_be_signed(
            e,
            p,
            Denial::InvalidAttributeConsumingServiceIndex,
            now,
            response_id,
            error,
        ),
        Some(asked) => {
            let required = requests_with(asked, true);
            let released = choose|released: Result<Seq<AttributeView>, PolicyErrorView>|
                {
                    &&& #[trigger] e.release.may_release(
                        attribute_views(s.attributes@),
                        sp,
                        p.entity_values("http://macedir.org/entity-category"@),
                        required,
                        requests_with(asked, false),
                        SubjectIdReq::of_values(
                            p.entity_values("urn:oasis:names:tc:SAML:profiles:subject-id:req"@),
                        ),
                        released,
                    )
                    &&& answered_after_release(
                        e,
                        p,
                        s,
                        required,
                        released,
                        now,
                        response_id,
                        assertion_id,
                        out,
                        f,
                    )
                };
            match release_verdict(entry.fail_on_missing_requested, required, released) {
                Err(RefusalView::Deny(denial)) => lemma_refusal_fails_to_be_signed(
                    e,
                    p,
                    denial,
                    now,
                    response_id,
                    error,
                ),
                Err(RefusalView::Fault(fault)) => {
                    if let Err(PolicyErrorView::Misconfigured(m)) = released {
                        assert(error == ProfileErrorView::Other("attribute release failed: "@ + m));
                    }
                },
                Ok(attributes) => {
                    if asks_for_anothers(p.policy(), entry.nameid_format@, sp) {
                        lemma_refusal_fails_to_be_signed(
                            e,
                            p,
                            Denial::InvalidNameIdPolicy,
                            now,
                            response_id,
                            error,
                        );
                    } else {
                        let named = choose|named: Result<NameIdView, IdentErrorView>|
                            {
                                &&& #[trigger] e.idents.may_construct(
                                    s.subject_id@,
                                    sp,
                                    p.policy(),
                                    Some(entry.nameid_format@),
                                    named,
                                    f.idents.state(),
                                )
                                &&& answered_after_name_id(
                                    e,
                                    p,
                                    s,
                                    attributes,
                                    named,
                                    now,
                                    response_id,
                                    assertion_id,
                                    out,
                                    f,
                                )
                            };
                        lemma_fault_after_naming(
                            e,
                            p,
                            s,
                            attributes,
                            named,
                            now,
                            response_id,
                            assertion_id,
                            error,
                            f,
                        );
                    }
                },
            }
        },
    }
}

proof fn lemma_fault_after_naming<
    R: AttributeRelease + ?Sized,
    N: NameIdConstructor + ?Sized,
    A: AssertionStore + ?Sized,
    F: Fn(&str) -> Result<String, String>,
>(
    e: ResponseEngine<R, N, A, F>,
    p: ResponseParams,
    s: AuthenticatedSubject,
    attributes: Seq<AttributeView>,
    named: Result<NameIdView, IdentErrorView>,
    now: Instant,
    response_id: Seq<char>,
    assertion_id: Seq<char>,
    error: ProfileErrorView,
    f: ResponseEngine<R, N, A, F>,
)
    requires
        answered_after_name_id(
            e,
            p,
            s,
            attributes,
            named,
            now,
            response_id,
            assertion_id,
            Err::<ResponseOutcomeView, ProfileErrorView>(error),
            f,
        ),
    ensures
        ({
            let entry = e.decisions.entry_of(p.processed.sp_entity_id@);
            let at = if s.authn_instant is Some {
                s.authn_instant->0
            } else {
                now
            };
            let span = if entry.session_lifetime is Some {
                entry.session_lifetime->0
            } else {
                entry.lifetime
            };
            let seconds = if entry.lifetime.nanos < 0 {
                0
            } else {
                entry.lifetime.nanos as int / 1_000_000_000
            };
            ||| exists|m: Seq<char>| error
                == ProfileErrorView::Other(#[trigger] ("signing failed: "@ + m))
            ||| {
                &&& error == ProfileErrorView::Other("a moment of the response is out of range"@)
                &&& {
                    ||| !at.in_range()
                    ||| !in_range_nanos(now.nanos + seconds * 1_000_000_000)
                    ||| !in_range_nanos(at.nanos + span.nanos)
                }
            }
        }),
        kept_assertions(f) == kept_assertions(e),
{
    let entry = e.decisions.entry_of(p.processed.sp_entity_id@);
    match named {
        Err(fault) => lemma_refusal_fails_to_be_signed(
            e,
            p,
            name_id_denial(fault),
            now,
            response_id,
            error,
        ),
        Ok(name_id) => {
            if !class_ref_meets(
                e.broker.methods(),
                e.broker.by_level(),
                p.requested(),
                s.authn_method@.resolved(e.broker.methods()).0,
            ) {
                lemma_refusal_fails_to_be_signed(
                    e,
                    p,
                    Denial::NoAuthnContext,
                    now,
                    response_id,
                    error,
                );
            } else if moments_in_range(entry, s, now) {
                let response = success_response(
                    e.idp_entity_id@,
                    entry,
                    e.broker.methods(),
                    p,
                    s,
                    attributes,
                    name_id,
                    now,
                    response_id,
                    assertion_id,
                );
                let issued = choose|issued: Result<IssuedResponseView, ProfileErrorView>|
                    {
                        &&& #[trigger] may_issue(
                            *e.signer,
                            e.cert_der_b64@,
                            entry,
                            p.sp_sso.wants_assertions_signed(),
                            response,
                            issued,
                        )
                        &&& issued == Err::<IssuedResponseView, ProfileErrorView>(error)
                    };
                let sign = entry.sign.resolved(p.sp_sso.wants_assertions_signed());
                let signed = choose|signed: Result<Seq<char>, ProfileErrorView>|
                    {
                        &&& #[trigger] may_be_signed(
                            *e.signer,
                            e.cert_der_b64@,
                            response_xml(response),
                            response.id,
                            Some(response.assertion->0.id),
                            sign.sign_assertion,
                            sign.sign_response,
                            signed,
                        )
                        &&& signed == Err::<Seq<char>, ProfileErrorView>(error)
                    };
                lemma_signing_fault(
                    *e.signer,
                    e.cert_der_b64@,
                    response_xml(response),
                    response.id,
                    Some(response.assertion->0.id),
                    sign.sign_assertion,
                    sign.sign_response,
                    error,
                );
            }
        },
    }
}

proof fn lemma_signing_fault<F: Fn(&str) -> Result<String, String>>(
    signer: SamlSigner<F>,
    cert: Seq<char>,
    xml: Seq<char>,
    response_id: Seq<char>,
    assertion_id: Option<Seq<char>>,
    sign_assertion: bool,
    sign_response: bool,
    error: ProfileErrorView,
)
    requires
        may_be_signed(
            signer,
            cert,
            xml,
            response_id,
            assertion_id,
            sign_assertion,
            sign_response,
            Err::<Seq<char>, ProfileErrorView>(error),
        ),
    ensures
        exists|m: Seq<char>| error == ProfileErrorView::Other(#[trigger] ("signing failed: "@ + m)),
{
    let r = choose|r: Result<String, String>| #[trigger]
        may_sign_response(
            signer,
            cert,
            xml,
            response_id,
            assertion_id,
            sign_assertion,
            sign_response,
            r,
        ) && Err::<Seq<char>, ProfileErrorView>(error) == as_fault(r);
    assert(error == ProfileErrorView::Other("signing failed: "@ + r->Err_0@));
}

/// A refusal comes to nothing only where the signer fails.
pub proof fn lemma_refusal_fails_to_be_signed<
    R: AttributeRelease + ?Sized,
    N: NameIdConstructor + ?Sized,
    A: AssertionStore + ?Sized,
    F: Fn(&str) -> Result<String, String>,
>(
    e: ResponseEngine<R, N, A, F>,
    p: ResponseParams,
    denial: Denial,
    now: Instant,
    response_id: Seq<char>,
    error: ProfileErrorView,
)
    requires
        refused_with(
            e,
            p,
            denial,
            now,
            response_id,
            Err::<ResponseOutcomeView, ProfileErrorView>(error),
        ),
    ensures
        exists|m: Seq<char>| error == ProfileErrorView::Other(#[trigger] ("signing failed: "@ + m)),
{
    let issued = choose|issued: Result<IssuedResponseView, ProfileErrorView>|
        {
            &&& #[trigger] may_deny(
                *e.signer,
                e.cert_der_b64@,
                e.idp_entity_id@,
                p,
                denial,
                now,
                response_id,
                issued,
            )
            &&& issued == Err::<IssuedResponseView, ProfileErrorView>(error)
        };
    let r = denial_response(e.idp_entity_id@, p, denial, now, response_id);
    let signed = choose|signed: Result<Seq<char>, ProfileErrorView>|
        {
            &&& #[trigger] may_be_signed(
                *e.signer,
                e.cert_der_b64@,
                response_xml(r),
                response_id,
                None,
                false,
                true,
                signed,
            )
            &&& signed == Err::<Seq<char>, ProfileErrorView>(error)
        };
    lemma_signing_fault(
        *e.signer,
        e.cert_der_b64@,
        response_xml(r),
        response_id,
        None,
        false,
        true,
        error,
    );
}

/// An engine that was not touched names users as it did, and keeps the assertions
/// that it kept; answering a request changes nothing of its setup.
pub proof fn law_untouched_is_as_it_was<
    R: AttributeRelease + ?Sized,
    N: NameIdConstructor + ?Sized,
    A: AssertionStore + ?Sized,
    F: Fn(&str) -> Result<String, String>,
>(e: ResponseEngine<R, N, A, F>, f: ResponseEngine<R, N, A, F>)
    ensures
        untouched(e, f) ==> naming_state(f) == naming_state(e),
        untouched(e, f) && e.assertions is Some && f.assertions is Some
            ==> f.assertions->0.stored() == e.assertions->0.stored(),
        same_setup(e, f) ==> {
            &&& f.idp_entity_id@ == e.idp_entity_id@
            &&& *f.decisions == *e.decisions
            &&& f.release == e.release
            &&& *f.broker == *e.broker
            &&& *f.signer == *e.signer
            &&& f.cert_der_b64@ == e.cert_der_b64@
            &&& f.assertions is Some == e.assertions is Some
        },
{
}

/// The values of an entity attribute are those in the metadata of the service
/// provider; without its metadata there are none.
pub proof fn law_entity_values_are_those_of_the_metadata(
    p: ResponseParams,
    q: ResponseParams,
    name: Seq<char>,
)
    requires
        q.sp_entity is None,
    ensures
        p.sp_entity matches Some(entity) ==> p.entity_values(name) == values_named(
            entity.entity_attributes@,
            name,
        ),
        q.entity_values(name).len() == 0,
{
}

} // verus!
