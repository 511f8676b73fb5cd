//! Single sign-on: from a request to the response that is delivered.
//!
//! The endpoint alternates between outside work and decisions. It fetches
//! metadata, verifies signatures, asks the application who the subject is; each
//! time, a function here says what follows.

use super::config::{opt_entity, saml2_role, IdpConfig};
use super::error::{refuse_naming, refused, SamlActixError, SamlActixErrorView};
use super::signature::{
    authentication, opt_redirect, verify_sp_request_signatures, RedirectSignature, XmlSignatures,
};
use super::signing::{as_internal, sign_response_xml, web_signed_text, IdpSigningContext};
use crate::digest::is_new_id;
use crate::idp::assertion_store::AssertionStore;
use crate::idp::ident::db::NameIdConstructor;
use crate::idp::orchestrator::denial::Denial;
use crate::idp::orchestrator::params::{
    opt_session, AuthenticatedSubject, Disposition, DispositionView, EstablishedSession,
    EstablishedSessionView, IssuedResponse, IssuedResponseView, ResponseOutcome,
    ResponseOutcomeView, ResponseParams,
};
use crate::idp::orchestrator::release::AttributeRelease;
use crate::idp::orchestrator::respond::{
    check_request, create_authn_response, create_denial_response, disposition_of, issued_view,
    may_answer, may_deny, outcome_view, same_setup, untouched, ResponseEngine, OUT_OF_RANGE,
};
use crate::saml::attribute::{attribute_views, clone_attributes, Attribute};
use crate::saml::error::ProfileErrorView;
use crate::saml::metadata::{EntityDescriptor, SpSsoDescriptor};
use crate::saml::name_id::NameId;
use crate::saml::request::ProcessedAuthnRequest;
use crate::saml::response::{
    create_response, AssertionView, ResponseOptions, ResponseTimes, ResponseView,
};
use crate::saml::response_xml::response_xml;
use crate::saml::signing::may_be_signed;
use crate::saml::time::{in_range_nanos, Instant, TimeDelta, NANOS};
use crate::text::{as_opt_str, debug_text, opt_str, opt_text, quoted, texts, to_opt_string};
use vstd::prelude::*;

verus! {

/// What the application reports of a subject that it decided on itself.
#[derive(Debug, Clone)]
pub struct AuthnCallbackResult {
    /// The NameID.
    pub name_id: NameId,
    /// The attributes to release.
    pub attributes: Vec<Attribute>,
    /// The authentication context class.
    pub authn_context_class_ref: Option<String>,
    /// The session index.
    pub session_index: Option<String>,
    /// When the subject authenticated; `None` is now.
    pub authn_instant: Option<Instant>,
}

/// What the application reports when it is asked to authenticate a subject. `T`
/// is a reply of its own.
#[derive(Debug)]
pub enum AuthnSubjectResult<T> {
    /// The subject authenticated.
    Authenticated(AuthenticatedSubject),
    /// The application replies itself, such as with a login form.
    Redirect(T),
    /// The request is refused.
    Deny(Denial),
}

/// Why a request is not admitted, if it is not. Its issuer has to be trusted
/// and have a SAML 2.0 service provider role, and every signature on the
/// request has to pass.
pub open spec fn admission(
    issuer: Option<Seq<char>>,
    entity: Option<EntityDescriptor>,
    redirect: Option<RedirectSignature>,
    xml: XmlSignatures,
    request_id: Seq<char>,
    has_xml_signature: bool,
) -> Result<(SpSsoDescriptor, bool), SamlActixErrorView> {
    if issuer is None || entity is None {
        Err(
            refused(
                "AuthnRequest issuer "@ + debug_text(
                    match issuer {
                        Some(i) => i,
                        None => "<missing>"@,
                    },
                ) + " is not a trusted SP; refusing to issue (register it with IdpConfig::with_trusted_sp or configure an MDQ resolver via IdpConfig::with_sp_resolver)"@,
            ),
        )
    } else {
        match saml2_role(entity) {
            None => Err(
                refused(
                    "trusted entity "@ + debug_text(entity->0.entity_id@)
                        + " has no SAML 2.0 SPSSODescriptor"@,
                ),
            ),
            Some(role) => match authentication(
                redirect,
                xml,
                request_id,
                has_xml_signature,
                "AuthnRequest"@,
            ) {
                Err(e) => Err(e),
                Ok(verified) => Ok((role, verified)),
            },
        }
    }
}

/// What the outcome of admitting a request says.
pub open spec fn admission_view(r: Result<(&SpSsoDescriptor, bool), SamlActixError>) -> Result<
    (SpSsoDescriptor, bool),
    SamlActixErrorView,
> {
    match r {
        Ok((role, verified)) => Ok((*role, verified)),
        Err(e) => Err(e@),
    }
}

/// Admit a request before anything is issued for it: the role of its sender,
/// and whether the request was authenticated. `entity` is what is trusted for
/// its issuer.
pub fn admit_request<'a>(
    issuer: Option<&str>,
    entity: Option<&'a EntityDescriptor>,
    redirect: Option<&RedirectSignature>,
    xml: &XmlSignatures,
    request_id: &str,
    has_xml_signature: bool,
) -> (result: Result<(&'a SpSsoDescriptor, bool), SamlActixError>)
    ensures
        admission_view(result) == admission(
            opt_str(issuer),
            opt_entity(entity),
            opt_redirect(redirect),
            *xml,
            request_id@,
            has_xml_signature,
        ),
{
    let trusted = match (issuer, entity) {
        (Some(_), Some(e)) => e,
        _ => {
            let name = match issuer {
                Some(i) => i,
                None => "<missing>",
            };
            return Err(
                refuse_naming(
                    "AuthnRequest issuer ",
                    quoted(name).as_str(),
                    " is not a trusted SP; refusing to issue (register it with IdpConfig::with_trusted_sp or configure an MDQ resolver via IdpConfig::with_sp_resolver)",
                ),
            );
        },
    };
    let role = match trusted.saml2_sp_sso_descriptor() {
        Some(r) => r,
        None => {
            return Err(
                refuse_naming(
                    "trusted entity ",
                    quoted(trusted.entity_id.as_str()).as_str(),
                    " has no SAML 2.0 SPSSODescriptor",
                ),
            );
        },
    };
    match verify_sp_request_signatures(
        redirect,
        xml,
        request_id,
        has_xml_signature,
        "AuthnRequest",
    ) {
        Ok(verified) => Ok((role, verified)),
        Err(e) => Err(e),
    }
}

/// How a request is answered.
#[derive(Debug, Clone, Copy, PartialEq, Eq, Structural)]
pub enum SsoPath {
    /// By the response engine.
    Engine,
    /// By what the application decides itself.
    Callback,
}

/// How a request is answered: by the engine where the application has set up
/// all that it takes, else by its own decisions, where it makes any.
pub fn choose_path(has_subject_callback: bool, has_engine: bool, has_callback: bool) -> (result:
    Result<SsoPath, SamlActixError>)
    ensures
        match result {
            Ok(SsoPath::Engine) => has_subject_callback && has_engine,
            Ok(SsoPath::Callback) => !(has_subject_callback && has_engine) && has_callback,
            Err(e) => !(has_subject_callback && has_engine) && !has_callback && e@
                == SamlActixErrorView::Configuration("no AuthnCallback registered for IdP SSO"@),
        },
{
    if has_subject_callback && has_engine {
        Ok(SsoPath::Engine)
    } else if has_callback {
        Ok(SsoPath::Callback)
    } else {
        Err(
            SamlActixError::Configuration("no AuthnCallback registered for IdP SSO".to_owned()),
        )
    }
}

/// What follows before the application is asked.
#[derive(Debug)]
pub enum SsoNext {
    /// Deliver a refusal; the application is not asked.
    Deliver(IssuedResponse),
    /// Ask the application to act on this disposition.
    Ask(Disposition),
}

/// What the outcome of the step before the application is asked says, given
/// the disposition: a refusal is delivered without asking.
pub open spec fn next_step<
    R: AttributeRelease + ?Sized,
    N: NameIdConstructor + ?Sized,
    A: AssertionStore + ?Sized,
    F: Fn(&str) -> Result<String, String>,
>(
    e: ResponseEngine<R, N, A, F>,
    p: ResponseParams,
    d: DispositionView,
    result: Result<SsoNext, SamlActixError>,
) -> bool {
    match d {
        DispositionView::Deny { denial } => exists|
            now: Instant,
            response_id: Seq<char>,
            issued: Result<IssuedResponseView, ProfileErrorView>,
        |
            {
                &&& now.in_range()
                &&& is_new_id(response_id)
                &&& #[trigger] may_deny(
                    *e.signer,
                    e.cert_der_b64@,
                    e.idp_entity_id@,
                    p,
                    denial,
                    now,
                    response_id,
                    issued,
                )
                &&& match issued {
                    Ok(i) => result matches Ok(SsoNext::Deliver(r)) && r@ == i,
                    Err(error) => result matches Err(w) && w@ == SamlActixErrorView::Profile(error),
                }
            },
        _ => result matches Ok(SsoNext::Ask(asked)) && asked@ == d,
    }
}

/// What the engine decides on a request at a moment, given the session that the
/// application has.
pub open spec fn disposition_at<
    R: AttributeRelease + ?Sized,
    N: NameIdConstructor + ?Sized,
    A: AssertionStore + ?Sized,
    F: Fn(&str) -> Result<String, String>,
>(
    e: ResponseEngine<R, N, A, F>,
    p: ResponseParams,
    session: Option<EstablishedSessionView>,
    now: Instant,
) -> DispositionView {
    disposition_of(
        e.broker.methods(),
        e.broker.by_level(),
        p.requested(),
        p.processed.force_authn,
        p.processed.is_passive,
        session,
        e.decisions.entry_of(p.processed.sp_entity_id@).session_span(),
        now,
    )
}

/// Decide on a request before the application is asked to authenticate anyone.
pub fn before_authentication<
    R: AttributeRelease + ?Sized,
    N: NameIdConstructor + ?Sized,
    A: AssertionStore + ?Sized,
    F: Fn(&str) -> Result<String, String>,
>(
    engine: &ResponseEngine<R, N, A, F>,
    params: &ResponseParams,
    session: Option<&EstablishedSession>,
) -> (result: Result<SsoNext, SamlActixError>)
    ensures
        exists|now: Instant|
            now.in_range() && next_step(
                *engine,
                *params,
                #[trigger] disposition_at(*engine, *params, opt_session(session), now),
                result,
            ),
{
    let disposition = check_request(engine, params, session);
    let ghost d = disposition@;
    proof {
        let now = choose|now: Instant|
            now.in_range() && d == #[trigger] disposition_of(
                engine.broker.methods(),
                engine.broker.by_level(),
                params.requested(),
                params.processed.force_authn,
                params.processed.is_passive,
                opt_session(session),
                engine.decisions.entry_of(params.processed.sp_entity_id@).session_span(),
                now,
            );
        assert(d == disposition_at(*engine, *params, opt_session(session), now));
    }
    let result = match disposition {
        Disposition::Deny { denial } => match create_denial_response(engine, params, &denial) {
            Ok(issued) => Ok(SsoNext::Deliver(issued)),
            Err(e) => Err(SamlActixError::Profile(e)),
        },
        other => Ok(SsoNext::Ask(other)),
    };
    assert(next_step(*engine, *params, d, result));
    result
}

/// What is sent in the end.
#[derive(Debug)]
pub enum SsoReply<T> {
    /// A response of the engine.
    Deliver(IssuedResponse),
    /// The application's own reply.
    Application(T),
}

/// Whether a reply follows from what the application reported.
pub open spec fn may_reply<
    T,
    R: AttributeRelease + ?Sized,
    N: NameIdConstructor + ?Sized,
    A: AssertionStore + ?Sized,
    F: Fn(&str) -> Result<String, String>,
>(
    e: ResponseEngine<R, N, A, F>,
    p: ResponseParams,
    reported: AuthnSubjectResult<T>,
    result: Result<SsoReply<T>, SamlActixError>,
    f: ResponseEngine<R, N, A, F>,
) -> bool {
    &&& same_setup(e, f)
    &&& match reported {
        AuthnSubjectResult::Redirect(own) => untouched(e, f) && result == Ok::<
            SsoReply<T>,
            SamlActixError,
        >(SsoReply::Application(own)),
        AuthnSubjectResult::Deny(denial) => untouched(e, f) && exists|
            now: Instant,
            response_id: Seq<char>,
            issued: Result<IssuedResponseView, ProfileErrorView>,
        |
            {
                &&& now.in_range()
                &&& is_new_id(response_id)
                &&& #[trigger] may_deny(
                    *e.signer,
                    e.cert_der_b64@,
                    e.idp_entity_id@,
                    p,
                    denial,
                    now,
                    response_id,
                    issued,
                )
                &&& delivers(issued, result)
            },
        AuthnSubjectResult::Authenticated(subject) => exists|
            now: Instant,
            response_id: Seq<char>,
            assertion_id: Seq<char>,
            out: Result<ResponseOutcomeView, ProfileErrorView>,
        |
            {
                &&& now.in_range()
                &&& is_new_id(response_id)
                &&& is_new_id(assertion_id)
                &&& #[trigger] may_answer(
                    e,
                    p,
                    subject,
                    now,
                    response_id,
                    assertion_id,
                    out,
                    f,
                )
                &&& delivers(response_in(out), result)
            },
    }
}

/// The response in an outcome: a refusal is delivered like any other.
pub open spec fn response_in(out: Result<ResponseOutcomeView, ProfileErrorView>) -> Result<
    IssuedResponseView,
    ProfileErrorView,
> {
    match out {
        Ok(ResponseOutcomeView::Issued(r)) => Ok(r),
        Ok(ResponseOutcomeView::Denied { denial, response }) => Ok(response),
        Err(e) => Err(e),
    }
}

/// Whether a reply delivers a response, or tells of the fault.
pub open spec fn delivers<T>(
    issued: Result<IssuedResponseView, ProfileErrorView>,
    result: Result<SsoReply<T>, SamlActixError>,
) -> bool {
    match issued {
        Ok(i) => result matches Ok(SsoReply::Deliver(r)) && r@ == i,
        Err(error) => result matches Err(w) && w@ == SamlActixErrorView::Profile(error),
    }
}

/// Answer a request with what the application reported.
pub fn after_authentication<
    T,
    R: AttributeRelease + ?Sized,
    N: NameIdConstructor + ?Sized,
    A: AssertionStore + ?Sized,
    F: Fn(&str) -> Result<String, String>,
>(
    engine: &mut ResponseEngine<R, N, A, F>,
    params: &ResponseParams,
    reported: AuthnSubjectResult<T>,
) -> (result: Result<SsoReply<T>, SamlActixError>)
    ensures
        may_reply(
            *old(engine),
            *params,
            reported,
            result,
            *final(engine),
        ),
{
    match reported {
        AuthnSubjectResult::Authenticated(subject) => {
            let out = create_authn_response(engine, params, &subject);
            let ghost shown = outcome_view(out);
            let result = match out {
                Ok(ResponseOutcome::Issued(issued)) => Ok(SsoReply::Deliver(issued)),
                Ok(ResponseOutcome::Denied { denial: _, response }) => Ok(
                    SsoReply::Deliver(response),
                ),
                Err(e) => Err(SamlActixError::Profile(e)),
            };
            assert(delivers::<T>(response_in(shown), result));
            result
        },
        AuthnSubjectResult::Redirect(own) => Ok(SsoReply::Application(own)),
        AuthnSubjectResult::Deny(denial) => {
            let issued = create_denial_response(engine, params, &denial);
            let ghost shown = issued_view(issued);
            let result = match issued {
                Ok(i) => Ok(SsoReply::Deliver(i)),
                Err(e) => Err(SamlActixError::Profile(e)),
            };
            assert(delivers::<T>(shown, result));
            result
        },
    }
}

/// How long a session lasts, in seconds, where the configuration says so many.
/// A number that no span of time can have stands for eight hours.
pub open spec fn configured_session(seconds: u64) -> int {
    if seconds <= 9_223_372_036_854_775 {
        seconds as int
    } else {
        28_800
    }
}

fn session_span(seconds: u64) -> (result: TimeDelta)
    ensures
        result.nanos == configured_session(seconds) * NANOS,
{
    if seconds <= 9_223_372_036_854_775 {
        TimeDelta::seconds(seconds as i64)
    } else {
        TimeDelta::seconds(28_800)
    }
}

/// The moment an assertion that is issued now stops being valid.
pub open spec fn configured_end(config: IdpConfig, now: Instant) -> int {
    now.nanos + config.assertion_lifetime_seconds * NANOS
}

/// The moment a session that starts now ends.
pub open spec fn configured_session_end(config: IdpConfig, now: Instant) -> int {
    now.nanos + configured_session(config.session_lifetime_seconds) * NANOS
}

/// When the subject authenticated.
pub open spec fn reported_moment(r: AuthnCallbackResult, now: Instant) -> Instant {
    match r.authn_instant {
        Some(t) => t,
        None => now,
    }
}

/// Whether a date can be given for every moment of a response.
pub open spec fn configured_in_range(config: IdpConfig, r: AuthnCallbackResult, now: Instant) -> bool {
    &&& reported_moment(r, now).in_range()
    &&& in_range_nanos(configured_end(config, now))
    &&& in_range_nanos(configured_session_end(config, now))
}

/// The response to what the application decided.
pub open spec fn callback_view(
    config: IdpConfig,
    processed: ProcessedAuthnRequest,
    r: AuthnCallbackResult,
    client_address: Option<Seq<char>>,
    now: Instant,
    response_id: Seq<char>,
    assertion_id: Seq<char>,
) -> ResponseView {
    ResponseView {
        id: response_id,
        in_response_to: Some(processed.request_id@),
        issue_instant: now,
        destination: processed.acs_url@,
        issuer: config.entity_id@,
        status: crate::saml::status::StatusView {
            code: crate::saml::constants::STATUS_SUCCESS@,
            sub_code: None,
            message: None,
        },
        assertion: Some(
            AssertionView {
                id: assertion_id,
                issue_instant: now,
                issuer: config.entity_id@,
                name_id: r.name_id@,
                in_response_to: Some(processed.request_id@),
                recipient: processed.acs_url@,
                not_on_or_after: Instant { nanos: configured_end(config, now) as i128 },
                audience: processed.sp_entity_id@,
                authn_instant: reported_moment(r, now),
                session_index: opt_text(r.session_index),
                session_not_on_or_after: Some(
                    Instant { nanos: configured_session_end(config, now) as i128 },
                ),
                authn_context_class_ref: opt_text(r.authn_context_class_ref),
                authenticating_authorities: Seq::empty(),
                client_address,
                attributes: attribute_views(r.attributes@),
            },
        ),
    }
}

/// Whether `result` is the response to what the application decided: signed as
/// configured. To sign without a key is a fault of the configuration.
pub open spec fn may_answer_callback<F: Fn(&str) -> Result<String, String>>(
    config: IdpConfig,
    ctx: Option<&IdpSigningContext<F>>,
    response: ResponseView,
    result: Result<Seq<char>, SamlActixErrorView>,
) -> bool {
    match ctx {
        Some(c) => exists|signed: Result<Seq<char>, ProfileErrorView>| #[trigger]
            may_be_signed(
                c.signer,
                c.cert_b64@,
                response_xml(response),
                response.id,
                Some(response.assertion->0.id),
                config.sign_assertions,
                config.sign_responses,
                signed,
            ) && result == as_internal(signed),
        None => if config.sign_assertions || config.sign_responses {
            result == Err::<Seq<char>, SamlActixErrorView>(
                SamlActixErrorView::Configuration(
                    "IdP response/assertion signing is enabled but no IdpSigningContext is registered"@,
                ),
            )
        } else {
            result == Ok::<Seq<char>, SamlActixErrorView>(response_xml(response))
        },
    }
}

/// Whether `result` answers a request with what the application decided, at a
/// given moment and with given identifiers.
pub open spec fn callback_answers<F: Fn(&str) -> Result<String, String>>(
    config: IdpConfig,
    ctx: Option<&IdpSigningContext<F>>,
    processed: ProcessedAuthnRequest,
    reported: AuthnCallbackResult,
    client_address: Option<Seq<char>>,
    now: Instant,
    response_id: Seq<char>,
    assertion_id: Seq<char>,
    result: Result<Seq<char>, SamlActixErrorView>,
) -> bool {
    if configured_in_range(config, reported, now) {
        may_answer_callback(
            config,
            ctx,
            callback_view(
                config,
                processed,
                reported,
                client_address,
                now,
                response_id,
                assertion_id,
            ),
            result,
        )
    } else {
        result == Err::<Seq<char>, SamlActixErrorView>(SamlActixErrorView::Internal(OUT_OF_RANGE@))
    }
}

/// Answer a request with what the application decided itself, at a given
/// moment and with given identifiers.
pub fn callback_response<F: Fn(&str) -> Result<String, String>>(
    config: &IdpConfig,
    ctx: Option<&IdpSigningContext<F>>,
    processed: &ProcessedAuthnRequest,
    reported: &AuthnCallbackResult,
    client_address: Option<&str>,
    now: Instant,
    response_id: &str,
    assertion_id: &str,
) -> (result: Result<String, SamlActixError>)
    requires
        now.in_range(),
    ensures
        callback_answers(
            *config,
            ctx,
            *processed,
            *reported,
            opt_str(client_address),
            now,
            response_id@,
            assertion_id@,
            web_signed_text(result),
        ),
{
    let authn_instant = match reported.authn_instant {
        Some(t) => t,
        None => now,
    };
    let lifetime = TimeDelta { nanos: config.assertion_lifetime_seconds as i128 * NANOS };
    let ends = (now.plus(lifetime), now.plus(session_span(config.session_lifetime_seconds)));
    if !authn_instant.is_in_range() {
        return Err(SamlActixError::Internal(OUT_OF_RANGE.to_owned()));
    }
    let (not_on_or_after, session_not_on_or_after) = match ends {
        (Some(a), Some(b)) => (a, b),
        _ => {
            return Err(SamlActixError::Internal(OUT_OF_RANGE.to_owned()));
        },
    };
    let authenticating_authorities: Vec<String> = Vec::new();
    assert(texts(authenticating_authorities@) == Seq::<Seq<char>>::empty());
    let options = ResponseOptions {
        idp_entity_id: config.entity_id.clone(),
        in_response_to: Some(processed.request_id.clone()),
        sp_entity_id: processed.sp_entity_id.clone(),
        acs_url: processed.acs_url.clone(),
        not_on_or_after,
        session_index: to_opt_string(as_opt_str(&reported.session_index)),
        session_not_on_or_after: Some(session_not_on_or_after),
        authn_context_class_ref: to_opt_string(as_opt_str(&reported.authn_context_class_ref)),
        client_address: to_opt_string(client_address),
        attributes: clone_attributes(reported.attributes.as_slice()),
        authenticating_authorities,
    };
    let response = create_response(
        &options,
        &reported.name_id,
        ResponseTimes { issue_instant: now, authn_instant },
        response_id,
        assertion_id,
    );
    let ghost expected = callback_view(
        *config,
        *processed,
        *reported,
        opt_str(client_address),
        now,
        response_id@,
        assertion_id@,
    );
    assert(response@ == expected);
    let xml = response.to_xml_string();
    match ctx {
        Some(c) => {
            let result = sign_response_xml(
                xml.as_str(),
                c,
                response_id,
                Some(assertion_id),
                config.sign_assertions,
                config.sign_responses,
            );
            proof {
                assert(opt_str(Some(assertion_id)) == Some(expected.assertion->0.id));
                let signed = choose|r: Result<Seq<char>, ProfileErrorView>| #[trigger]
                    may_be_signed(
                        c.signer,
                        c.cert_b64@,
                        response_xml(expected),
                        expected.id,
                        Some(expected.assertion->0.id),
                        config.sign_assertions,
                        config.sign_responses,
                        r,
                    ) && web_signed_text(result) == as_internal(r);
                assert(may_be_signed(
                    c.signer,
                    c.cert_b64@,
                    response_xml(expected),
                    expected.id,
                    Some(expected.assertion->0.id),
                    config.sign_assertions,
                    config.sign_responses,
                    signed,
                ));
            }
            result
        },
        None => {
            let result = if config.sign_assertions || config.sign_responses {
                Err(
                    SamlActixError::Configuration(
                        "IdP response/assertion signing is enabled but no IdpSigningContext is registered".to_owned(),
                    ),
                )
            } else {
                Ok(xml)
            };
            assert(!(config.sign_assertions || config.sign_responses) ==> web_signed_text(result)
                == Ok::<Seq<char>, SamlActixErrorView>(response_xml(expected)));
            result
        },
    }
}

} // verus!
