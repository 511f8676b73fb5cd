//! The response engine: what to do with a request, and the response to it.

use super::denial::Denial;
use super::params::{
    opt_session, AuthenticatedSubject, Disposition, DispositionView, EstablishedSession,
    EstablishedSessionView, IssuedResponse, IssuedResponseView, ResponseOutcome,
    ResponseOutcomeView, ResponseParams,
};
use super::release::AttributeRelease;
use crate::digest::{is_new_id, new_id};
use crate::idp::assertion_store::AssertionStore;
use crate::idp::authn_broker::{
    method_views, picked, sort_strongest_first, strongest_first, AuthnBroker, AuthnMethodView,
};
use crate::idp::entity_category::{SubjectIdReq, SUBJECT_ID_REQ_ATTR};
use crate::idp::ident::db::{effective_format, effective_qualifier, NameIdConstructor};
use crate::idp::ident::error::{outcome, IdentError, IdentErrorView};
use crate::idp::policy::{
    chosen_requests, missing, release_outcome, requests_with, sp_attribute_requirements,
    PolicyEntry, PolicyError, PolicyErrorView, ReleasePolicy,
};
use crate::saml::attribute::{
    attribute_views, clone_attributes, requested_views, Attribute, AttributeView,
    RequestedAttribute, RequestedAttributeView,
};
use crate::saml::constants::{ENTITY_CATEGORY_ATTR, NAMEID_TRANSIENT};
use crate::saml::error::{ProfileError, ProfileErrorView};
use crate::saml::name_id::{opt_policy, NameId, NameIdPolicy, NameIdPolicyView, NameIdView};
use crate::saml::request::{opt_context_ref, RequestedAuthnContext, RequestedAuthnContextView};
use crate::saml::response::{
    create_error_response, create_response, Assertion, AssertionView, Response, ResponseOptions,
    ResponseTimes, ResponseView,
};
use crate::saml::response_xml::response_xml;
use crate::saml::signing::{may_be_signed, sign_response_xml, signed_text, SamlSigner};
use crate::saml::time::{in_range_nanos, lifetime_seconds, Instant, TimeDelta, NANOS};
use crate::text::{as_opt_str, concat, opt_text, same, texts, to_opt_string};
use vstd::prelude::*;

verus! {

/// Whether a class reference is one of the methods that meet a requested
/// context. Where nothing is requested, any is.
pub open spec fn class_ref_meets(
    methods: Seq<AuthnMethodView>,
    by_level: bool,
    requested: Option<RequestedAuthnContextView>,
    class_ref: Seq<char>,
) -> bool {
    requested is None || exists|i: int|
        0 <= i < picked(methods, by_level, requested).len() && (#[trigger] picked(
            methods,
            by_level,
            requested,
        )[i]).class_ref == class_ref
}

/// Whether a session can be reused: no fresh authentication is forced, the
/// method that established it meets the requested context, and it has not
/// ended.
pub open spec fn is_reusable(
    methods: Seq<AuthnMethodView>,
    by_level: bool,
    requested: Option<RequestedAuthnContextView>,
    force_authn: bool,
    session: EstablishedSessionView,
    session_span: TimeDelta,
    now: Instant,
) -> bool {
    &&& !force_authn
    &&& class_ref_meets(methods, by_level, requested, session.authn_method.resolved(methods).0)
    &&& now.nanos < session.authn_instant.nanos + session_span.nanos
}

/// What is to be done with a request. A session that can be reused is. Else a
/// passive request is refused. Else the subject authenticates with one of the
/// methods that meet the requested context, the strongest first; where a
/// context is requested that none meets, the request is refused.
pub open spec fn disposition_of(
    methods: Seq<AuthnMethodView>,
    by_level: bool,
    requested: Option<RequestedAuthnContextView>,
    force_authn: bool,
    is_passive: bool,
    session: Option<EstablishedSessionView>,
    session_span: TimeDelta,
    now: Instant,
) -> DispositionView {
    let ms = picked(methods, by_level, requested);
    if session is Some && is_reusable(
        methods,
        by_level,
        requested,
        force_authn,
        session->0,
        session_span,
        now,
    ) {
        DispositionView::ReuseSession { session: session->0 }
    } else if is_passive {
        DispositionView::Deny { denial: Denial::NoPassive }
    } else if ms.len() == 0 && requested is Some {
        DispositionView::Deny { denial: Denial::NoAuthnContext }
    } else {
        DispositionView::Authenticate { methods: strongest_first(ms) }
    }
}

/// Whether `now` comes before `span` after `start`.
fn is_before_end(now: Instant, start: Instant, span: TimeDelta) -> (result: bool)
    ensures
        result == (now.nanos < start.nanos + span.nanos),
{
    match start.nanos.checked_add(span.nanos) {
        Some(end) => now.nanos < end,
        None => span.nanos > 0,
    }
}

/// Whether a class reference is one of the methods that meet a requested
/// context. Where nothing is requested, any is.
pub fn class_ref_satisfies(
    broker: &AuthnBroker,
    requested: Option<&RequestedAuthnContext>,
    class_ref: &str,
) -> (result: bool)
    ensures
        result == class_ref_meets(
            broker.methods(),
            broker.by_level(),
            opt_context_ref(requested),
            class_ref@,
        ),
{
    if requested.is_none() {
        return true;
    }
    let ms = broker.pick(requested);
    let ghost all = picked(broker.methods(), broker.by_level(), opt_context_ref(requested));
    let mut i: usize = 0;
    while i < ms.len()
        invariant
            i <= ms@.len(),
            all == method_views(ms@),
            all == picked(broker.methods(), broker.by_level(), opt_context_ref(requested)),
            forall|k: int| 0 <= k < i ==> (#[trigger] all[k]).class_ref != class_ref@,
        decreases ms@.len() - i,
    {
        assert(all[i as int] == ms@[i as int]@);
        if same(ms[i].class_ref.as_str(), class_ref) {
            return true;
        }
        i += 1;
    }
    false
}

/// Whether the method that established a session meets a requested context.
fn session_satisfies(
    broker: &AuthnBroker,
    requested: Option<&RequestedAuthnContext>,
    session: &EstablishedSession,
) -> (result: bool)
    ensures
        result == class_ref_meets(
            broker.methods(),
            broker.by_level(),
            opt_context_ref(requested),
            session@.authn_method.resolved(broker.methods()).0,
        ),
{
    let (class_ref, _authority) = session.authn_method.resolve(broker);
    class_ref_satisfies(broker, requested, class_ref.as_str())
}

/// Decide what to do with a request at a given moment.
pub fn decide_request(
    broker: &AuthnBroker,
    params: &ResponseParams,
    session: Option<&EstablishedSession>,
    session_span: TimeDelta,
    now: Instant,
) -> (result: Disposition)
    ensures
        result@ == disposition_of(
            broker.methods(),
            broker.by_level(),
            params.requested(),
            params.processed.force_authn,
            params.processed.is_passive,
            opt_session(session),
            session_span,
            now,
        ),
{
    let requested = params.requested_authn_context();
    let asked = match &requested {
        Some(c) => Some(c),
        None => None,
    };
    assert(opt_context_ref(asked) == params.requested());
    if let Some(s) = session {
        if !params.processed.force_authn && session_satisfies(broker, asked, s) && is_before_end(
            now,
            s.authn_instant,
            session_span,
        ) {
            return Disposition::ReuseSession { session: s.clone() };
        }
    }
    if params.processed.is_passive {
        return Disposition::Deny { denial: Denial::NoPassive };
    }
    let ms = broker.pick(asked);
    assert(method_views(ms@).len() == ms@.len());
    if ms.len() == 0 && asked.is_some() {
        return Disposition::Deny { denial: Denial::NoAuthnContext };
    }
    Disposition::Authenticate { methods: sort_strongest_first(ms) }
}

/// The response-assembly engine: what a deployment supplies, for one call.
pub struct ResponseEngine<
    'a,
    R: AttributeRelease + ?Sized,
    N: NameIdConstructor + ?Sized,
    A: AssertionStore + ?Sized,
    F: Fn(&str) -> Result<String, String>,
> {
    /// This identity provider's entity ID.
    pub idp_entity_id: &'a str,
    /// What is decided for each service provider.
    pub decisions: &'a ReleasePolicy,
    /// The attribute-release seam. Often `decisions` again.
    pub release: &'a R,
    /// The identity database.
    pub idents: &'a mut N,
    /// The authentication methods.
    pub broker: &'a AuthnBroker,
    /// The assertion store, if back-channel queries are to be answered.
    pub assertions: Option<&'a mut A>,
    /// The signer.
    pub signer: &'a SamlSigner<F>,
    /// The base64 DER signing certificate.
    pub cert_der_b64: &'a str,
}

/// Decide what to do with a request now.
///
/// The application answers one question, whether it has a session and which
/// method established it, by passing `session`.
pub fn check_request<
    R: AttributeRelease + ?Sized,
    N: NameIdConstructor + ?Sized,
    A: AssertionStore + ?Sized,
    F: Fn(&str) -> Result<String, String>,
>(
    engine: &ResponseEngine<R, N, A, F>,
    params: &ResponseParams,
    session: Option<&EstablishedSession>,
) -> (result: Disposition)
    ensures
        exists|now: Instant|
            now.in_range() && result@ == #[trigger] disposition_of(
                engine.broker.methods(),
                engine.broker.by_level(),
                params.requested(),
                params.processed.force_authn,
                params.processed.is_passive,
                opt_session(session),
                engine.decisions.entry_of(params.processed.sp_entity_id@).session_span(),
                now,
            ),
{
    let now = Instant::now();
    let span = engine.decisions.session_lifetime(params.processed.sp_entity_id.as_str());
    decide_request(engine.broker, params, session, span, now)
}

/// Why no response is issued.
#[derive(Debug)]
pub enum Refusal {
    /// The request is refused.
    Deny(Denial),
    /// Something went wrong.
    Fault(ProfileError),
}

/// What a [`Refusal`] says.
#[verifier::ext_equal]
pub enum RefusalView {
    Deny(Denial),
    Fault(ProfileErrorView),
}

impl View for Refusal {
    type V = RefusalView;

    open spec fn view(&self) -> RefusalView {
        match *self {
            Refusal::Deny(d) => RefusalView::Deny(d),
            Refusal::Fault(e) => RefusalView::Fault(e@),
        }
    }
}

/// What follows from the outcome of a release: something required that is
/// missing refuses the request, whether the release or this check finds it; a
/// misconfigured release is a fault.
pub open spec fn release_verdict(
    fail_on_missing: bool,
    required: Seq<RequestedAttributeView>,
    released: Result<Seq<AttributeView>, PolicyErrorView>,
) -> Result<Seq<AttributeView>, RefusalView> {
    match released {
        Ok(attributes) => if fail_on_missing && missing(attributes, required) is Some {
            Err(RefusalView::Deny(Denial::MissingRequiredAttributes))
        } else {
            Ok(attributes)
        },
        Err(PolicyErrorView::MissingRequiredAttribute(_)) => Err(
            RefusalView::Deny(Denial::MissingRequiredAttributes),
        ),
        Err(PolicyErrorView::MissingRequiredValue(_)) => Err(
            RefusalView::Deny(Denial::MissingRequiredAttributes),
        ),
        Err(PolicyErrorView::Misconfigured(m)) => Err(
            RefusalView::Fault(ProfileErrorView::Other("attribute release failed: "@ + m)),
        ),
    }
}

/// What a verdict on a release says.
pub open spec fn verdict_view(r: Result<Vec<Attribute>, Refusal>) -> Result<
    Seq<AttributeView>,
    RefusalView,
> {
    match r {
        Ok(v) => Ok(attribute_views(v@)),
        Err(e) => Err(e@),
    }
}

/// What follows from the outcome of a release.
pub fn judge_release(
    decisions: &ReleasePolicy,
    sp_entity_id: &str,
    required: &[RequestedAttribute],
    released: Result<Vec<Attribute>, PolicyError>,
) -> (result: Result<Vec<Attribute>, Refusal>)
    ensures
        verdict_view(result) == release_verdict(
            decisions.entry_of(sp_entity_id@).fail_on_missing_requested,
            requested_views(required@),
            release_outcome(released),
        ),
{
    match released {
        Ok(attributes) => {
            if decisions.fail_on_missing_requested(sp_entity_id)
                && decisions.validate_required_attributes(
                attributes.as_slice(),
                required,
            ).is_err() {
                Err(Refusal::Deny(Denial::MissingRequiredAttributes))
            } else {
                Ok(attributes)
            }
        },
        Err(PolicyError::MissingRequiredAttribute(_)) => Err(
            Refusal::Deny(Denial::MissingRequiredAttributes),
        ),
        Err(PolicyError::MissingRequiredValue { attribute: _ }) => Err(
            Refusal::Deny(Denial::MissingRequiredAttributes),
        ),
        Err(PolicyError::Misconfigured(m)) => Err(
            Refusal::Fault(ProfileError::Other(concat("attribute release failed: ", m.as_str()))),
        ),
    }
}

/// Whether a request asks for another entity's NameID. A NameID that lasts
/// belongs to one service provider, and no other may have it; only a transient
/// one, which names its user to nobody, may carry another qualifier.
pub open spec fn asks_for_anothers(
    policy: Option<NameIdPolicyView>,
    default_format: Seq<char>,
    sp_entity_id: Seq<char>,
) -> bool {
    effective_format(policy, Some(default_format)) != Some(NAMEID_TRANSIENT@)
        && effective_qualifier(policy, sp_entity_id) != sp_entity_id
}

/// Why a NameID could not be constructed.
pub open spec fn name_id_denial(e: IdentErrorView) -> Denial {
    match e {
        IdentErrorView::CreateNotAllowed => Denial::NameIdCreationNotAllowed,
        _ => Denial::InvalidNameIdPolicy,
    }
}

/// The refusal that follows from an error of the identity database.
pub fn denial_for(e: &IdentError) -> (result: Denial)
    ensures
        result == name_id_denial(e@),
{
    match e {
        IdentError::CreateNotAllowed => Denial::NameIdCreationNotAllowed,
        _ => Denial::InvalidNameIdPolicy,
    }
}

fn names_another(policy: &Option<NameIdPolicy>, default_format: &str, sp_entity_id: &str) -> (result:
    bool)
    ensures
        result == asks_for_anothers(
            match *policy {
                Some(p) => Some(p@),
                None => None,
            },
            default_format@,
            sp_entity_id@,
        ),
{
    match policy {
        Some(p) => {
            let format = match &p.format {
                Some(f) => f.as_str(),
                None => default_format,
            };
            let qualifier = match &p.sp_name_qualifier {
                Some(q) => q.as_str(),
                None => sp_entity_id,
            };
            !same(format, NAMEID_TRANSIENT) && !same(qualifier, sp_entity_id)
        },
        None => false,
    }
}

/// The names of attributes.
pub open spec fn names_of(attributes: Seq<AttributeView>) -> Seq<Seq<char>> {
    Seq::new(attributes.len(), |i: int| attributes[i].name)
}

fn attribute_names(attributes: &[Attribute]) -> (result: Vec<String>)
    ensures
        texts(result@) == names_of(attribute_views(attributes@)),
{
    let mut out: Vec<String> = Vec::new();
    let mut i: usize = 0;
    while i < attributes.len()
        invariant
            i <= attributes@.len(),
            out@.len() == i,
            forall|k: int| 0 <= k < i ==> (#[trigger] out@[k])@ == attributes@[k]@.name,
        decreases attributes@.len() - i,
    {
        out.push(attributes[i].name.clone());
        i += 1;
    }
    assert(texts(out@) == names_of(attribute_views(attributes@)));
    out
}

/// A NameID that says nothing.
pub open spec fn no_name_id() -> NameIdView {
    NameIdView {
        value: Seq::empty(),
        format: None,
        name_qualifier: None,
        sp_name_qualifier: None,
        sp_provided_id: None,
    }
}

/// The response that refuses a request.
pub open spec fn denial_response(
    idp: Seq<char>,
    p: ResponseParams,
    denial: Denial,
    now: Instant,
    response_id: Seq<char>,
) -> ResponseView {
    ResponseView {
        id: response_id,
        in_response_to: Some(p.processed.request_id@),
        issue_instant: now,
        destination: p.processed.acs_url@,
        issuer: idp,
        status: denial.status_view(),
        assertion: None,
    }
}

/// The text of a signed response, or why it could not be signed, for a refusal:
/// the response is signed, whatever else is decided.
pub open spec fn may_deny<F: Fn(&str) -> Result<String, String>>(
    signer: SamlSigner<F>,
    cert: Seq<char>,
    idp: Seq<char>,
    p: ResponseParams,
    denial: Denial,
    now: Instant,
    response_id: Seq<char>,
    result: Result<IssuedResponseView, ProfileErrorView>,
) -> bool {
    exists|signed: Result<Seq<char>, ProfileErrorView>|
        {
            &&& #[trigger] may_be_signed(
                signer,
                cert,
                response_xml(denial_response(idp, p, denial, now, response_id)),
                response_id,
                None,
                false,
                true,
                signed,
            )
            &&& result == match signed {
                Ok(xml) => Ok::<IssuedResponseView, ProfileErrorView>(
                    IssuedResponseView {
                        xml,
                        response_id,
                        assertion_id: None,
                        name_id: no_name_id(),
                        session_index: None,
                        not_on_or_after: now,
                        released_attribute_names: Seq::empty(),
                    },
                ),
                Err(e) => Err(e),
            }
        }
}

/// What the outcome of assembling a refusal says.
pub open spec fn issued_view(r: Result<IssuedResponse, ProfileError>) -> Result<
    IssuedResponseView,
    ProfileErrorView,
> {
    match r {
        Ok(i) => Ok(i@),
        Err(e) => Err(e@),
    }
}

/// Assemble and sign the response that refuses a request, at a given moment
/// and with a given identifier.
pub fn create_denial_response_at<F: Fn(&str) -> Result<String, String>>(
    signer: &SamlSigner<F>,
    cert_der_b64: &str,
    idp_entity_id: &str,
    params: &ResponseParams,
    denial: &Denial,
    now: Instant,
    response_id: &str,
) -> (result: Result<IssuedResponse, ProfileError>)
    requires
        now.in_range(),
    ensures
        may_deny(
            *signer,
            cert_der_b64@,
            idp_entity_id@,
            *params,
            *denial,
            now,
            response_id@,
            issued_view(result),
        ),
{
    let response = create_error_response(
        idp_entity_id,
        Some(params.processed.request_id.as_str()),
        params.processed.acs_url.as_str(),
        denial.status(),
        now,
        response_id,
    );
    let xml = response.to_xml_string();
    let signed = sign_response_xml(
        xml.as_str(),
        signer,
        cert_der_b64,
        response_id,
        None,
        false,
        true,
    );
    let ghost shown = signed_text(signed);
    assert(response@ == denial_response(idp_entity_id@, *params, *denial, now, response_id@));
    assert(may_be_signed(
        *signer,
        cert_der_b64@,
        response_xml(denial_response(idp_entity_id@, *params, *denial, now, response_id@)),
        response_id@,
        None,
        false,
        true,
        shown,
    ));
    match signed {
        Ok(xml) => {
            let none: Vec<String> = Vec::new();
            let empty = String::new();
            assert(texts(none@) == Seq::<Seq<char>>::empty());
            assert(empty@ == Seq::<char>::empty());
            let issued = IssuedResponse {
                xml,
                response_id: response_id.to_owned(),
                assertion_id: None,
                name_id: NameId {
                    value: empty,
                    format: None,
                    name_qualifier: None,
                    sp_name_qualifier: None,
                    sp_provided_id: None,
                },
                session_index: None,
                not_on_or_after: now,
                released_attribute_names: none,
            };
            assert(issued@.name_id == no_name_id());
            Ok(issued)
        },
        Err(e) => Err(e),
    }
}

/// The moment an assertion that is issued now stops being valid, in
/// nanoseconds from the Unix epoch: after the whole seconds of the lifetime.
pub open spec fn assertion_end(entry: PolicyEntry, now: Instant) -> int {
    now.nanos + lifetime_seconds(entry.lifetime.nanos as int) * NANOS
}

/// When the subject authenticated.
pub open spec fn authn_moment(s: AuthenticatedSubject, now: Instant) -> Instant {
    match s.authn_instant {
        Some(t) => t,
        None => now,
    }
}

/// The moment the session ends: after the session lifetime from when the
/// subject authenticated.
pub open spec fn session_end(entry: PolicyEntry, s: AuthenticatedSubject, now: Instant) -> int {
    authn_moment(s, now).nanos + entry.session_span().nanos
}

/// Whether a date can be given for every moment of a response.
pub open spec fn moments_in_range(entry: PolicyEntry, s: AuthenticatedSubject, now: Instant) -> bool {
    &&& authn_moment(s, now).in_range()
    &&& in_range_nanos(assertion_end(entry, now))
    &&& in_range_nanos(session_end(entry, s, now))
}

/// An authority that may be absent, as a list.
pub open spec fn authorities(authority: Option<Seq<char>>) -> Seq<Seq<char>> {
    match authority {
        Some(a) => seq![a],
        None => Seq::empty(),
    }
}

/// The response that is issued to a subject.
pub open spec fn success_response(
    idp: Seq<char>,
    entry: PolicyEntry,
    methods: Seq<AuthnMethodView>,
    p: ResponseParams,
    s: AuthenticatedSubject,
    attributes: Seq<AttributeView>,
    name_id: NameIdView,
    now: Instant,
    response_id: Seq<char>,
    assertion_id: Seq<char>,
) -> ResponseView {
    let (class_ref, authority) = s.authn_method@.resolved(methods);
    ResponseView {
        id: response_id,
        in_response_to: Some(p.processed.request_id@),
        issue_instant: now,
        destination: p.processed.acs_url@,
        issuer: idp,
        status: crate::saml::status::StatusView {
            code: crate::saml::constants::STATUS_SUCCESS@,
            sub_code: None,
            message: None,
        },
        assertion: Some(
            AssertionView {
                id: assertion_id,
                issue_instant: now,
                issuer: idp,
                name_id,
                in_response_to: Some(p.processed.request_id@),
                recipient: p.processed.acs_url@,
                not_on_or_after: Instant { nanos: assertion_end(entry, now) as i128 },
                audience: p.processed.sp_entity_id@,
                authn_instant: authn_moment(s, now),
                session_index: opt_text(s.session_index),
                session_not_on_or_after: Some(
                    Instant { nanos: session_end(entry, s, now) as i128 },
                ),
                authn_context_class_ref: Some(class_ref),
                authenticating_authorities: authorities(authority),
                client_address: None,
                attributes,
            },
        ),
    }
}

/// Why a response cannot be dated.
pub const OUT_OF_RANGE: &'static str = "a moment of the response is out of range";

/// The signed response to a subject, or why there is none.
pub open spec fn may_issue<F: Fn(&str) -> Result<String, String>>(
    signer: SamlSigner<F>,
    cert: Seq<char>,
    entry: PolicyEntry,
    want_assertions_signed: bool,
    response: ResponseView,
    result: Result<IssuedResponseView, ProfileErrorView>,
) -> bool {
    let a = response.assertion->0;
    let sign = entry.sign.resolved(want_assertions_signed);
    exists|signed: Result<Seq<char>, ProfileErrorView>|
        {
            &&& #[trigger] may_be_signed(
                signer,
                cert,
                response_xml(response),
                response.id,
                Some(a.id),
                sign.sign_assertion,
                sign.sign_response,
                signed,
            )
            &&& result == match signed {
                Ok(xml) => Ok::<IssuedResponseView, ProfileErrorView>(
                    IssuedResponseView {
                        xml,
                        response_id: response.id,
                        assertion_id: Some(a.id),
                        name_id: a.name_id,
                        session_index: a.session_index,
                        not_on_or_after: a.not_on_or_after,
                        released_attribute_names: names_of(a.attributes),
                    },
                ),
                Err(e) => Err(e),
            }
        }
}

/// The response to a subject whose attributes were released and whose NameID
/// was constructed, unless one of its moments is out of range.
pub fn build_response(
    idp_entity_id: &str,
    decisions: &ReleasePolicy,
    broker: &AuthnBroker,
    params: &ResponseParams,
    subject: &AuthenticatedSubject,
    attributes: &[Attribute],
    name_id: &NameId,
    now: Instant,
    response_id: &str,
    assertion_id: &str,
) -> (result: Option<Response>)
    requires
        now.in_range(),
    ensures
        ({
            let entry = decisions.entry_of(params.processed.sp_entity_id@);
            match result {
                Some(r) => moments_in_range(entry, *subject, now) && r@.is_dated() && r@
                    == success_response(
                    idp_entity_id@,
                    entry,
                    broker.methods(),
                    *params,
                    *subject,
                    attribute_views(attributes@),
                    name_id@,
                    now,
                    response_id@,
                    assertion_id@,
                ),
                None => !moments_in_range(entry, *subject, now),
            }
        }),
{
    let sp = params.processed.sp_entity_id.as_str();
    let lifetime = decisions.lifetime(sp).as_lifetime();
    let span = decisions.session_lifetime(sp);
    let authn_instant = match subject.authn_instant {
        Some(t) => t,
        None => now,
    };
    if !authn_instant.is_in_range() {
        return None;
    }
    let not_on_or_after = match now.plus(lifetime) {
        Some(t) => t,
        None => {
            return None;
        },
    };
    let session_not_on_or_after = match authn_instant.plus(span) {
        Some(t) => t,
        None => {
            return None;
        },
    };
    let (class_ref, authority) = subject.authn_method.resolve(broker);
    let mut authenticating_authorities: Vec<String> = Vec::new();
    let ghost by = opt_text(authority);
    if let Some(a) = authority {
        authenticating_authorities.push(a);
    }
    assert(texts(authenticating_authorities@) == authorities(by));
    let options = ResponseOptions {
        idp_entity_id: idp_entity_id.to_owned(),
        in_response_to: Some(params.processed.request_id.clone()),
        sp_entity_id: params.processed.sp_entity_id.clone(),
        acs_url: params.processed.acs_url.clone(),
        not_on_or_after,
        session_index: to_opt_string(as_opt_str(&subject.session_index)),
        session_not_on_or_after: Some(session_not_on_or_after),
        authn_context_class_ref: Some(class_ref),
        client_address: None,
        attributes: clone_attributes(attributes),
        authenticating_authorities,
    };
    let response = create_response(
        &options,
        name_id,
        ResponseTimes { issue_instant: now, authn_instant },
        response_id,
        assertion_id,
    );
    Some(response)
}

/// Sign the response to a subject, and give the assertion in it.
pub fn sign_and_issue<F: Fn(&str) -> Result<String, String>>(
    signer: &SamlSigner<F>,
    cert_der_b64: &str,
    decisions: &ReleasePolicy,
    params: &ResponseParams,
    response: Response,
) -> (result: Result<(IssuedResponse, Assertion), ProfileError>)
    requires
        response@.is_dated(),
        response@.assertion is Some,
    ensures
        may_issue(
            *signer,
            cert_der_b64@,
            decisions.entry_of(params.processed.sp_entity_id@),
            params.sp_sso.wants_assertions_signed(),
            response@,
            issued_with(result),
        ),
        result matches Ok((_, a)) ==> Some(a@) == response@.assertion,
{
    let sp = params.processed.sp_entity_id.as_str();
    let want_assertions_signed = match params.sp_sso.want_assertions_signed {
        Some(b) => b,
        None => false,
    };
    let sign = decisions.sign(sp).resolve(want_assertions_signed);
    let xml = response.to_xml_string();
    let Response { id, assertion, .. } = response;
    let assertion = assertion.unwrap();
    let signed = sign_response_xml(
        xml.as_str(),
        signer,
        cert_der_b64,
        id.as_str(),
        Some(assertion.id.as_str()),
        sign.sign_assertion,
        sign.sign_response,
    );
    let ghost shown = signed_text(signed);
    assert(may_be_signed(
        *signer,
        cert_der_b64@,
        response_xml(response@),
        response@.id,
        Some(response@.assertion->0.id),
        sign.sign_assertion,
        sign.sign_response,
        shown,
    ));
    match signed {
        Ok(xml) => {
            let issued = IssuedResponse {
                xml,
                response_id: id,
                assertion_id: Some(assertion.id.clone()),
                name_id: assertion.name_id.clone(),
                session_index: to_opt_string(as_opt_str(&assertion.session_index)),
                not_on_or_after: assertion.not_on_or_after,
                released_attribute_names: attribute_names(assertion.attributes.as_slice()),
            };
            Ok((issued, assertion))
        },
        Err(e) => Err(e),
    }
}

/// What the outcome of issuing says.
pub open spec fn issued_with(r: Result<(IssuedResponse, Assertion), ProfileError>) -> Result<
    IssuedResponseView,
    ProfileErrorView,
> {
    match r {
        Ok((issued, _)) => Ok(issued@),
        Err(e) => Err(e@),
    }
}

/// What the outcome of answering a request says.
pub open spec fn outcome_view(r: Result<ResponseOutcome, ProfileError>) -> Result<
    ResponseOutcomeView,
    ProfileErrorView,
> {
    match r {
        Ok(o) => Ok(o@),
        Err(e) => Err(e@),
    }
}

/// The assertions in the store of an engine, if it has one.
pub open spec fn kept_assertions<
    R: AttributeRelease + ?Sized,
    N: NameIdConstructor + ?Sized,
    A: AssertionStore + ?Sized,
    F: Fn(&str) -> Result<String, String>,
>(e: ResponseEngine<R, N, A, F>) -> Option<Seq<AssertionView>> {
    match e.assertions {
        Some(store) => Some(store.stored()),
        None => None,
    }
}

/// The assertions in a store after one more is stored, if there is a store.
pub open spec fn with_assertion(kept: Option<Seq<AssertionView>>, a: AssertionView) -> Option<
    Seq<AssertionView>,
> {
    match kept {
        Some(v) => Some(v.push(a)),
        None => None,
    }
}

/// Whether two engines have everything in common but what the identity database
/// and the assertion store hold.
pub open spec fn same_setup<
    R: AttributeRelease + ?Sized,
    N: NameIdConstructor + ?Sized,
    A: AssertionStore + ?Sized,
    F: Fn(&str) -> Result<String, String>,
>(e: ResponseEngine<R, N, A, F>, f: ResponseEngine<R, N, A, F>) -> bool {
    &&& f.idp_entity_id@ == e.idp_entity_id@
    &&& *f.decisions == *e.decisions
    &&& f.release == e.release
    &&& *f.broker == *e.broker
    &&& *f.signer == *e.signer
    &&& f.cert_der_b64@ == e.cert_der_b64@
    &&& f.assertions is Some == e.assertions is Some
}

/// Whether two engines have the same identity database.
pub open spec fn same_idents<
    R: AttributeRelease + ?Sized,
    N: NameIdConstructor + ?Sized,
    A: AssertionStore + ?Sized,
    F: Fn(&str) -> Result<String, String>,
>(e: ResponseEngine<R, N, A, F>, f: ResponseEngine<R, N, A, F>) -> bool {
    &*f.idents == &*e.idents
}

/// Whether nothing was written: the identity database and the assertions in the
/// store are as they were.
pub open spec fn untouched<
    R: AttributeRelease + ?Sized,
    N: NameIdConstructor + ?Sized,
    A: AssertionStore + ?Sized,
    F: Fn(&str) -> Result<String, String>,
>(e: ResponseEngine<R, N, A, F>, f: ResponseEngine<R, N, A, F>) -> bool {
    same_idents(e, f) && kept_assertions(f) == kept_assertions(e)
}

/// A signed refusal, or why it could not be signed.
pub open spec fn refused_with<
    R: AttributeRelease + ?Sized,
    N: NameIdConstructor + ?Sized,
    A: AssertionStore + ?Sized,
    F: Fn(&str) -> Result<String, String>,
>(
    e: ResponseEngine<R, N, A, F>,
    p: ResponseParams,
    denial: Denial,
    now: Instant,
    response_id: Seq<char>,
    out: Result<ResponseOutcomeView, ProfileErrorView>,
) -> bool {
    exists|issued: Result<IssuedResponseView, ProfileErrorView>|
        {
            &&& #[trigger] may_deny(
                *e.signer,
                e.cert_der_b64@,
                e.idp_entity_id@,
                p,
                denial,
                now,
                response_id,
                issued,
            )
            &&& out == match issued {
                Ok(response) => Ok::<ResponseOutcomeView, ProfileErrorView>(
                    ResponseOutcomeView::Denied { denial, response },
                ),
                Err(e) => Err(e),
            }
        }
}

/// What is answered once the attributes are released and the NameID was asked
/// for.
pub open spec fn answered_after_name_id<
    R: AttributeRelease + ?Sized,
    N: NameIdConstructor + ?Sized,
    A: AssertionStore + ?Sized,
    F: Fn(&str) -> Result<String, String>,
>(
    e: ResponseEngine<R, N, A, F>,
    p: ResponseParams,
    s: AuthenticatedSubject,
    attributes: Seq<AttributeView>,
    named: Result<NameIdView, IdentErrorView>,
    now: Instant,
    response_id: Seq<char>,
    assertion_id: Seq<char>,
    out: Result<ResponseOutcomeView, ProfileErrorView>,
    f: ResponseEngine<R, N, A, F>,
) -> bool {
    let entry = e.decisions.entry_of(p.processed.sp_entity_id@);
    match named {
        Err(error) => kept_assertions(f) == kept_assertions(e) && refused_with(
            e,
            p,
            name_id_denial(error),
            now,
            response_id,
            out,
        ),
        Ok(name_id) => if !class_ref_meets(
            e.broker.methods(),
            e.broker.by_level(),
            p.requested(),
            s.authn_method@.resolved(e.broker.methods()).0,
        ) {
            kept_assertions(f) == kept_assertions(e) && refused_with(
                e,
                p,
                Denial::NoAuthnContext,
                now,
                response_id,
                out,
            )
        } else if !moments_in_range(entry, s, now) {
            kept_assertions(f) == kept_assertions(e) && out == Err::<ResponseOutcomeView, ProfileErrorView>(
                ProfileErrorView::Other(OUT_OF_RANGE@),
            )
        } else {
            exists|issued: Result<IssuedResponseView, ProfileErrorView>|
                {
                    &&& #[trigger] may_issue(
                        *e.signer,
                        e.cert_der_b64@,
                        entry,
                        p.sp_sso.wants_assertions_signed(),
                        success_response(
                            e.idp_entity_id@,
                            entry,
                            e.broker.methods(),
                            p,
                            s,
                            attributes,
                            name_id,
                            now,
                            response_id,
                            assertion_id,
                        ),
                        issued,
                    )
                    &&& out == match issued {
                        Ok(response) => Ok::<ResponseOutcomeView, ProfileErrorView>(
                            ResponseOutcomeView::Issued(response),
                        ),
                        Err(e) => Err(e),
                    }
                    &&& kept_assertions(f) == if issued is Ok {
                        with_assertion(
                            kept_assertions(e),
                            success_response(
                                e.idp_entity_id@,
                                entry,
                                e.broker.methods(),
                                p,
                                s,
                                attributes,
                                name_id,
                                now,
                                response_id,
                                assertion_id,
                            ).assertion->0,
                        )
                    } else {
                        kept_assertions(e)
                    }
                }
        },
    }
}

/// What is answered once a release was asked for.
pub open spec fn answered_after_release<
    R: AttributeRelease + ?Sized,
    N: NameIdConstructor + ?Sized,
    A: AssertionStore + ?Sized,
    F: Fn(&str) -> Result<String, String>,
>(
    e: ResponseEngine<R, N, A, F>,
    p: ResponseParams,
    s: AuthenticatedSubject,
    required: Seq<RequestedAttributeView>,
    released: Result<Seq<AttributeView>, PolicyErrorView>,
    now: Instant,
    response_id: Seq<char>,
    assertion_id: Seq<char>,
    out: Result<ResponseOutcomeView, ProfileErrorView>,
    f: ResponseEngine<R, N, A, F>,
) -> bool {
    let sp = p.processed.sp_entity_id@;
    let entry = e.decisions.entry_of(sp);
    match release_verdict(entry.fail_on_missing_requested, required, released) {
        Err(RefusalView::Deny(denial)) => untouched(e, f) && refused_with(
            e,
            p,
            denial,
            now,
            response_id,
            out,
        ),
        Err(RefusalView::Fault(error)) => untouched(e, f) && out == Err::<
            ResponseOutcomeView,
            ProfileErrorView,
        >(error),
        Ok(attributes) => if asks_for_anothers(p.policy(), entry.nameid_format@, sp) {
            untouched(e, f) && refused_with(
                e,
                p,
                Denial::InvalidNameIdPolicy,
                now,
                response_id,
                out,
            )
        } else {
            exists|named: Result<NameIdView, IdentErrorView>|
                {
                    &&& #[trigger] e.idents.may_construct(
                        s.subject_id@,
                        sp,
                        p.policy(),
                        Some(entry.nameid_format@),
                        named,
                        f.idents.state(),
                    )
                    &&& answered_after_name_id(
                        e,
                        p,
                        s,
                        attributes,
                        named,
                        now,
                        response_id,
                        assertion_id,
                        out,
                        f,
                    )
                }
        },
    }
}

/// What a request is answered, whatever the release, the identity database and
/// the signer come back with. The order is fixed: the attribute consuming
/// service, the release, what is required, the NameID, the authentication
/// context, the response, its signatures.
pub open spec fn may_answer<
    R: AttributeRelease + ?Sized,
    N: NameIdConstructor + ?Sized,
    A: AssertionStore + ?Sized,
    F: Fn(&str) -> Result<String, String>,
>(
    e: ResponseEngine<R, N, A, F>,
    p: ResponseParams,
    s: AuthenticatedSubject,
    now: Instant,
    response_id: Seq<char>,
    assertion_id: Seq<char>,
    out: Result<ResponseOutcomeView, ProfileErrorView>,
    f: ResponseEngine<R, N, A, F>,
) -> bool {
    &&& same_setup(e, f)
    &&& match chosen_requests(
        p.sp_sso.services(),
        p.processed.attribute_consuming_service_index,
    ) {
        None => untouched(e, f) && refused_with(
            e,
            p,
            Denial::InvalidAttributeConsumingServiceIndex,
            now,
            response_id,
            out,
        ),
        Some(rs) => exists|released: Result<Seq<AttributeView>, PolicyErrorView>|
            {
                &&& #[trigger] e.release.may_release(
                    attribute_views(s.attributes@),
                    p.processed.sp_entity_id@,
                    p.entity_values(ENTITY_CATEGORY_ATTR@),
                    requests_with(rs, true),
                    requests_with(rs, false),
                    SubjectIdReq::of_values(p.entity_values(SUBJECT_ID_REQ_ATTR@)),
                    released,
                )
                &&& answered_after_release(
                    e,
                    p,
                    s,
                    requests_with(rs, true),
                    released,
                    now,
                    response_id,
                    assertion_id,
                    out,
                    f,
                )
            },
    }
}

fn denied<
    R: AttributeRelease + ?Sized,
    N: NameIdConstructor + ?Sized,
    A: AssertionStore + ?Sized,
    F: Fn(&str) -> Result<String, String>,
>(
    engine: &ResponseEngine<R, N, A, F>,
    params: &ResponseParams,
    denial: Denial,
    now: Instant,
    response_id: &str,
) -> (result: Result<ResponseOutcome, ProfileError>)
    requires
        now.in_range(),
    ensures
        refused_with(*engine, *params, denial, now, response_id@, outcome_view(result)),
        !(result matches Ok(ResponseOutcome::Issued(_))),
{
    let issued = create_denial_response_at(
        engine.signer,
        engine.cert_der_b64,
        engine.idp_entity_id,
        params,
        &denial,
        now,
        response_id,
    );
    let ghost shown = issued_view(issued);
    assert(may_deny(
        *engine.signer,
        engine.cert_der_b64@,
        engine.idp_entity_id@,
        *params,
        denial,
        now,
        response_id@,
        shown,
    ));
    match issued {
        Ok(response) => Ok(ResponseOutcome::Denied { denial, response }),
        Err(e) => Err(e),
    }
}

/// Answer a request for an authenticated subject, at a given moment and with
/// given identifiers.
pub fn create_authn_response_at<
    R: AttributeRelease + ?Sized,
    N: NameIdConstructor + ?Sized,
    A: AssertionStore + ?Sized,
    F: Fn(&str) -> Result<String, String>,
>(
    engine: &mut ResponseEngine<R, N, A, F>,
    params: &ResponseParams,
    subject: &AuthenticatedSubject,
    now: Instant,
    response_id: &str,
    assertion_id: &str,
) -> (result: Result<ResponseOutcome, ProfileError>)
    requires
        now.in_range(),
    ensures
        may_answer(
            *old(engine),
            *params,
            *subject,
            now,
            response_id@,
            assertion_id@,
            outcome_view(result),
            *final(engine),
        ),
{
    let ghost e = *engine;
    let sp = params.processed.sp_entity_id.as_str();
    let (required, optional) = match sp_attribute_requirements(
        &params.sp_sso,
        params.processed.attribute_consuming_service_index,
    ) {
        Some(rs) => rs,
        None => {
            return denied(
                engine,
                params,
                Denial::InvalidAttributeConsumingServiceIndex,
                now,
                response_id,
            );
        },
    };
    let categories = params.sp_entity_categories();
    let released = engine.release.release(
        clone_attributes(subject.attributes.as_slice()),
        sp,
        categories.as_slice(),
        required.as_slice(),
        optional.as_slice(),
        params.subject_id_req(),
    );
    let ghost shown = release_outcome(released);
    let attributes = match judge_release(engine.decisions, sp, required.as_slice(), released) {
        Ok(attributes) => attributes,
        Err(Refusal::Deny(denial)) => {
            let result = denied(engine, params, denial, now, response_id);
            assert(answered_after_release(
                e,
                *params,
                *subject,
                requested_views(required@),
                shown,
                now,
                response_id@,
                assertion_id@,
                outcome_view(result),
                *engine,
            ));
            return result;
        },
        Err(Refusal::Fault(error)) => {
            let result = Err(error);
            assert(answered_after_release(
                e,
                *params,
                *subject,
                requested_views(required@),
                shown,
                now,
                response_id@,
                assertion_id@,
                outcome_view(result),
                *engine,
            ));
            return result;
        },
    };
    let policy = params.name_id_policy();
    let format = engine.decisions.nameid_format(sp);
    if names_another(&policy, format.as_str(), sp) {
        let result = denied(engine, params, Denial::InvalidNameIdPolicy, now, response_id);
        assert(answered_after_release(
            e,
            *params,
            *subject,
            requested_views(required@),
            shown,
            now,
            response_id@,
            assertion_id@,
            outcome_view(result),
            *engine,
        ));
        return result;
    }
    let asked = match &policy {
        Some(p) => Some(p),
        None => None,
    };
    assert(opt_policy(asked) == params.policy());
    let named = engine.idents.construct_nameid(
        subject.subject_id.as_str(),
        sp,
        asked,
        Some(format.as_str()),
    );
    let ghost named_view = outcome(named);
    let result = finish_response(
        engine,
        params,
        subject,
        attributes,
        named,
        now,
        response_id,
        assertion_id,
    );
    proof {
        assert(e.idents.may_construct(
            subject.subject_id@,
            sp@,
            params.policy(),
            Some(format@),
            named_view,
            engine.idents.state(),
        ));
        assert(answered_after_name_id(
            e,
            *params,
            *subject,
            attribute_views(attributes@),
            named_view,
            now,
            response_id@,
            assertion_id@,
            outcome_view(result),
            *engine,
        ));
        assert(answered_after_release(
            e,
            *params,
            *subject,
            requested_views(required@),
            shown,
            now,
            response_id@,
            assertion_id@,
            outcome_view(result),
            *engine,
        ));
    }
    result
}

/// Answer a request once the attributes are released and the NameID was asked
/// for.
fn finish_response<
    R: AttributeRelease + ?Sized,
    N: NameIdConstructor + ?Sized,
    A: AssertionStore + ?Sized,
    F: Fn(&str) -> Result<String, String>,
>(
    engine: &mut ResponseEngine<R, N, A, F>,
    params: &ResponseParams,
    subject: &AuthenticatedSubject,
    attributes: Vec<Attribute>,
    named: Result<NameId, IdentError>,
    now: Instant,
    response_id: &str,
    assertion_id: &str,
) -> (result: Result<ResponseOutcome, ProfileError>)
    requires
        now.in_range(),
    ensures
        answered_after_name_id(
            *old(engine),
            *params,
            *subject,
            attribute_views(attributes@),
            outcome(named),
            now,
            response_id@,
            assertion_id@,
            outcome_view(result),
            *final(engine),
        ),
        same_setup(*old(engine), *final(engine)),
        same_idents(*old(engine), *final(engine)),
{
    let ghost e = *engine;
    let name_id = match named {
        Ok(name_id) => name_id,
        Err(error) => {
            return denied(engine, params, denial_for(&error), now, response_id);
        },
    };
    let (class_ref, _authority) = subject.authn_method.resolve(engine.broker);
    let requested = params.requested_authn_context();
    let asked = match &requested {
        Some(c) => Some(c),
        None => None,
    };
    assert(opt_context_ref(asked) == params.requested());
    if !class_ref_satisfies(engine.broker, asked, class_ref.as_str()) {
        return denied(engine, params, Denial::NoAuthnContext, now, response_id);
    }
    let response = match build_response(
        engine.idp_entity_id,
        engine.decisions,
        engine.broker,
        params,
        subject,
        attributes.as_slice(),
        &name_id,
        now,
        response_id,
        assertion_id,
    ) {
        Some(r) => r,
        None => {
            return Err(ProfileError::Other(OUT_OF_RANGE.to_owned()));
        },
    };
    let ghost expected = response@;
    let issued = sign_and_issue(
        engine.signer,
        engine.cert_der_b64,
        engine.decisions,
        params,
        response,
    );
    let ghost shown = issued_with(issued);
    proof {
        assert(may_issue(
            *e.signer,
            e.cert_der_b64@,
            e.decisions.entry_of(params.processed.sp_entity_id@),
            params.sp_sso.wants_assertions_signed(),
            expected,
            shown,
        ));
    }
    match issued {
        Ok((response, assertion)) => {
            if let Some(store) = &mut engine.assertions {
                store.store_assertion(assertion);
            }
            Ok(ResponseOutcome::Issued(response))
        },
        Err(error) => Err(error),
    }
}

/// Answer a request for an authenticated subject.
///
/// A refusal that the protocol provides for is a signed
/// [`ResponseOutcome::Denied`]; only faults are errors.
pub fn create_authn_response<
    R: AttributeRelease + ?Sized,
    N: NameIdConstructor + ?Sized,
    A: AssertionStore + ?Sized,
    F: Fn(&str) -> Result<String, String>,
>(
    engine: &mut ResponseEngine<R, N, A, F>,
    params: &ResponseParams,
    subject: &AuthenticatedSubject,
) -> (result: Result<ResponseOutcome, ProfileError>)
    ensures
        exists|now: Instant, response_id: Seq<char>, assertion_id: Seq<char>|
            {
                &&& now.in_range()
                &&& is_new_id(response_id)
                &&& is_new_id(assertion_id)
                &&& #[trigger] may_answer(
                    *old(engine),
                    *params,
                    *subject,
                    now,
                    response_id,
                    assertion_id,
                    outcome_view(result),
                    *final(engine),
                )
            },
{
    let now = Instant::now();
    let response_id = new_id();
    let assertion_id = new_id();
    create_authn_response_at(
        engine,
        params,
        subject,
        now,
        response_id.as_str(),
        assertion_id.as_str(),
    )
}

/// Assemble and sign the response that refuses a request. The response is
/// signed whatever is decided for the service provider.
pub fn create_denial_response<
    R: AttributeRelease + ?Sized,
    N: NameIdConstructor + ?Sized,
    A: AssertionStore + ?Sized,
    F: Fn(&str) -> Result<String, String>,
>(
    engine: &ResponseEngine<R, N, A, F>,
    params: &ResponseParams,
    denial: &Denial,
) -> (result: Result<IssuedResponse, ProfileError>)
    ensures
        exists|now: Instant, response_id: Seq<char>|
            {
                &&& now.in_range()
                &&& is_new_id(response_id)
                &&& #[trigger] may_deny(
                    *engine.signer,
                    engine.cert_der_b64@,
                    engine.idp_entity_id@,
                    *params,
                    *denial,
                    now,
                    response_id,
                    issued_view(result),
                )
            },
{
    let now = Instant::now();
    let response_id = new_id();
    create_denial_response_at(
        engine.signer,
        engine.cert_der_b64,
        engine.idp_entity_id,
        params,
        denial,
        now,
        response_id.as_str(),
    )
}

} // verus!
