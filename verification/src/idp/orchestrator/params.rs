//! What goes into the response engine, and what comes out.

use super::denial::Denial;
use crate::idp::authn_broker::{
    method_views, referenced, AuthnBroker, AuthnMethod, AuthnMethodView,
};
use crate::idp::entity_category::{SubjectIdReq, SUBJECT_ID_REQ_ATTR};
use crate::saml::attribute::Attribute;
use crate::saml::constants::ENTITY_CATEGORY_ATTR;
use crate::saml::metadata::{values_named, EntityDescriptor, SpSsoDescriptor};
use crate::saml::name_id::{NameId, NameIdPolicy, NameIdPolicyView, NameIdView};
use crate::saml::request::{
    opt_context, AuthnContextComparison, ProcessedAuthnRequest, RequestedAuthnContext,
    RequestedAuthnContextView,
};
use crate::saml::time::Instant;
use crate::text::{as_opt_str, clone_strings, opt_text, texts, to_opt_string};
use vstd::prelude::*;

verus! {

/// The authentication method that actually ran.
#[derive(Debug, PartialEq, Eq)]
pub enum AuthnMethodRef {
    /// The application supplies the class reference, and the authenticating
    /// authority if it is not this identity provider.
    Inline {
        /// The authentication context class reference.
        class_ref: String,
        /// The authenticating authority.
        authn_authority: Option<String>,
    },
    /// A method that is registered in the broker, by its reference.
    BrokerReference(String),
}

/// What an [`AuthnMethodRef`] says.
#[verifier::ext_equal]
pub enum AuthnMethodRefView {
    Inline { class_ref: Seq<char>, authn_authority: Option<Seq<char>> },
    BrokerReference(Seq<char>),
}

impl View for AuthnMethodRef {
    type V = AuthnMethodRefView;

    open spec fn view(&self) -> AuthnMethodRefView {
        match *self {
            AuthnMethodRef::Inline { class_ref, authn_authority } => AuthnMethodRefView::Inline {
                class_ref: class_ref@,
                authn_authority: opt_text(authn_authority),
            },
            AuthnMethodRef::BrokerReference(r) => AuthnMethodRefView::BrokerReference(r@),
        }
    }
}

impl Clone for AuthnMethodRef {
    fn clone(&self) -> (result: Self)
        ensures
            result@ == self@,
    {
        match self {
            AuthnMethodRef::Inline { class_ref, authn_authority } => AuthnMethodRef::Inline {
                class_ref: class_ref.clone(),
                authn_authority: to_opt_string(as_opt_str(authn_authority)),
            },
            AuthnMethodRef::BrokerReference(r) => AuthnMethodRef::BrokerReference(r.clone()),
        }
    }
}

impl AuthnMethodRefView {
    /// The class reference and the authority that a reference comes to. One
    /// that the broker does not know comes to itself, without an authority.
    pub open spec fn resolved(self, methods: Seq<AuthnMethodView>) -> (
        Seq<char>,
        Option<Seq<char>>,
    ) {
        match self {
            AuthnMethodRefView::Inline { class_ref, authn_authority } => (
                class_ref,
                authn_authority,
            ),
            AuthnMethodRefView::BrokerReference(r) => {
                let at = referenced(methods, r);
                if at < methods.len() {
                    (methods[at as int].class_ref, methods[at as int].authn_authority)
                } else {
                    (r, None)
                }
            },
        }
    }
}

impl AuthnMethodRef {
    /// Resolve this reference against the broker.
    pub fn resolve(&self, broker: &AuthnBroker) -> (result: (String, Option<String>))
        ensures
            (result.0@, opt_text(result.1)) == self@.resolved(broker.methods()),
    {
        match self {
            AuthnMethodRef::Inline { class_ref, authn_authority } => (
                class_ref.clone(),
                to_opt_string(as_opt_str(authn_authority)),
            ),
            AuthnMethodRef::BrokerReference(reference) => match broker.get(reference.as_str()) {
                Some(method) => (
                    method.class_ref.clone(),
                    to_opt_string(as_opt_str(&method.authn_authority)),
                ),
                None => (reference.clone(), None),
            },
        }
    }
}

/// The authenticated subject, as the application knows it.
#[derive(Debug, Clone)]
pub struct AuthenticatedSubject {
    /// The local subject identifier.
    pub subject_id: String,
    /// The subject's attributes, before release.
    pub attributes: Vec<Attribute>,
    /// The authentication method that ran.
    pub authn_method: AuthnMethodRef,
    /// When the subject authenticated; `None` is now.
    pub authn_instant: Option<Instant>,
    /// The session index.
    pub session_index: Option<String>,
}

/// A session that the application has with a subject.
#[derive(Debug)]
pub struct EstablishedSession {
    /// The local subject identifier.
    pub subject_id: String,
    /// The authentication method that established the session.
    pub authn_method: AuthnMethodRef,
    /// When the subject authenticated.
    pub authn_instant: Instant,
    /// The session index.
    pub session_index: String,
}

/// What an [`EstablishedSession`] says.
#[verifier::ext_equal]
pub struct EstablishedSessionView {
    pub subject_id: Seq<char>,
    pub authn_method: AuthnMethodRefView,
    pub authn_instant: Instant,
    pub session_index: Seq<char>,
}

impl View for EstablishedSession {
    type V = EstablishedSessionView;

    open spec fn view(&self) -> EstablishedSessionView {
        EstablishedSessionView {
            subject_id: self.subject_id@,
            authn_method: self.authn_method@,
            authn_instant: self.authn_instant,
            session_index: self.session_index@,
        }
    }
}

impl Clone for EstablishedSession {
    fn clone(&self) -> (result: Self)
        ensures
            result@ == self@,
    {
        EstablishedSession {
            subject_id: self.subject_id.clone(),
            authn_method: self.authn_method.clone(),
            authn_instant: self.authn_instant,
            session_index: self.session_index.clone(),
        }
    }
}

/// What an optional session says.
pub open spec fn opt_session(s: Option<&EstablishedSession>) -> Option<EstablishedSessionView> {
    match s {
        Some(x) => Some(x@),
        None => None,
    }
}

/// The request and the metadata that a response is assembled for.
#[derive(Debug, Clone)]
pub struct ResponseParams {
    /// The validated request.
    pub processed: ProcessedAuthnRequest,
    /// The role of the service provider that the request was bound to.
    pub sp_sso: SpSsoDescriptor,
    /// The descriptor of the service provider. Without it, the service provider
    /// has no categories.
    pub sp_entity: Option<EntityDescriptor>,
}

impl ResponseParams {
    /// The values of an entity attribute of the service provider.
    pub open spec fn entity_values(self, name: Seq<char>) -> Seq<Seq<char>> {
        match self.sp_entity {
            Some(e) => values_named(e.entity_attributes@, name),
            None => Seq::empty(),
        }
    }

    /// The `NameIDPolicy` of the request.
    pub open spec fn policy(self) -> Option<NameIdPolicyView> {
        if self.processed.has_name_id_policy {
            Some(
                NameIdPolicyView {
                    format: opt_text(self.processed.requested_name_id_format),
                    sp_name_qualifier: opt_text(self.processed.requested_sp_name_qualifier),
                    allow_create: self.processed.allow_create,
                },
            )
        } else {
            None
        }
    }

    /// The requested authentication context.
    pub open spec fn requested(self) -> Option<RequestedAuthnContextView> {
        if self.processed.requested_authn_context_class_refs@.len() == 0 {
            None
        } else {
            Some(
                RequestedAuthnContextView {
                    class_refs: texts(self.processed.requested_authn_context_class_refs@),
                    decl_refs: Seq::empty(),
                    comparison: match self.processed.authn_context_comparison {
                        Some(c) => c,
                        None => AuthnContextComparison::Exact,
                    },
                },
            )
        }
    }

    /// The entity categories that the service provider publishes.
    pub fn sp_entity_categories(&self) -> (result: Vec<String>)
        ensures
            texts(result@) == self.entity_values(ENTITY_CATEGORY_ATTR@),
    {
        match &self.sp_entity {
            Some(e) => e.entity_categories(),
            None => {
                let none: Vec<String> = Vec::new();
                assert(texts(none@) == Seq::<Seq<char>>::empty());
                none
            },
        }
    }

    /// The subject identifier that the service provider says it needs.
    pub fn subject_id_req(&self) -> (result: SubjectIdReq)
        ensures
            result == SubjectIdReq::of_values(self.entity_values(SUBJECT_ID_REQ_ATTR@)),
    {
        match &self.sp_entity {
            Some(e) => SubjectIdReq::from_metadata_values(
                e.entity_attribute_values(SUBJECT_ID_REQ_ATTR).as_slice(),
            ),
            None => SubjectIdReq::NotRequired,
        }
    }

    /// The `NameIDPolicy` of the request, if it has one.
    pub fn name_id_policy(&self) -> (result: Option<NameIdPolicy>)
        ensures
            match result {
                Some(p) => self.policy() == Some(p@),
                None => self.policy() is None,
            },
    {
        if !self.processed.has_name_id_policy {
            return None;
        }
        Some(
            NameIdPolicy {
                format: to_opt_string(as_opt_str(&self.processed.requested_name_id_format)),
                sp_name_qualifier: to_opt_string(
                    as_opt_str(&self.processed.requested_sp_name_qualifier),
                ),
                allow_create: self.processed.allow_create,
            },
        )
    }

    /// The requested authentication context, if there is one.
    pub fn requested_authn_context(&self) -> (result: Option<RequestedAuthnContext>)
        ensures
            opt_context(result) == self.requested(),
    {
        if self.processed.requested_authn_context_class_refs.len() == 0 {
            return None;
        }
        let result = RequestedAuthnContext {
            authn_context_class_refs: clone_strings(
                self.processed.requested_authn_context_class_refs.as_slice(),
            ),
            authn_context_decl_refs: Vec::new(),
            comparison: match self.processed.authn_context_comparison {
                Some(c) => c,
                None => AuthnContextComparison::Exact,
            },
        };
        assert(result@.decl_refs == Seq::<Seq<char>>::empty());
        Some(result)
    }
}

/// What is to be done with a request.
#[derive(Debug, Clone)]
pub enum Disposition {
    /// The request is satisfied by a session that is there.
    ReuseSession {
        /// The session.
        session: EstablishedSession,
    },
    /// The subject must authenticate.
    Authenticate {
        /// The methods that meet the request, the strongest first.
        methods: Vec<AuthnMethod>,
    },
    /// The request must be refused.
    Deny {
        /// Why.
        denial: Denial,
    },
}

/// What a [`Disposition`] says.
#[verifier::ext_equal]
pub enum DispositionView {
    ReuseSession { session: EstablishedSessionView },
    Authenticate { methods: Seq<AuthnMethodView> },
    Deny { denial: Denial },
}

impl View for Disposition {
    type V = DispositionView;

    open spec fn view(&self) -> DispositionView {
        match *self {
            Disposition::ReuseSession { session } => DispositionView::ReuseSession {
                session: session@,
            },
            Disposition::Authenticate { methods } => DispositionView::Authenticate {
                methods: method_views(methods@),
            },
            Disposition::Deny { denial } => DispositionView::Deny { denial },
        }
    }
}

/// An assembled and signed response, with what an audit log needs of it.
#[derive(Debug, Clone)]
pub struct IssuedResponse {
    /// The response as XML, ready to deliver.
    pub xml: String,
    /// The `ID` of the response.
    pub response_id: String,
    /// The `ID` of the assertion.
    pub assertion_id: Option<String>,
    /// The NameID of the subject.
    pub name_id: NameId,
    /// The session index.
    pub session_index: Option<String>,
    /// When the assertion is no longer valid.
    pub not_on_or_after: Instant,
    /// The names of the released attributes.
    pub released_attribute_names: Vec<String>,
}

/// What an [`IssuedResponse`] says.
#[verifier::ext_equal]
pub struct IssuedResponseView {
    pub xml: Seq<char>,
    pub response_id: Seq<char>,
    pub assertion_id: Option<Seq<char>>,
    pub name_id: NameIdView,
    pub session_index: Option<Seq<char>>,
    pub not_on_or_after: Instant,
    pub released_attribute_names: Seq<Seq<char>>,
}

impl View for IssuedResponse {
    type V = IssuedResponseView;

    open spec fn view(&self) -> IssuedResponseView {
        IssuedResponseView {
            xml: self.xml@,
            response_id: self.response_id@,
            assertion_id: opt_text(self.assertion_id),
            name_id: self.name_id@,
            session_index: opt_text(self.session_index),
            not_on_or_after: self.not_on_or_after,
            released_attribute_names: texts(self.released_attribute_names@),
        }
    }
}

/// The outcome of assembling a response.
#[derive(Debug, Clone)]
pub enum ResponseOutcome {
    /// A successful response.
    Issued(IssuedResponse),
    /// A signed refusal.
    Denied {
        /// Why.
        denial: Denial,
        /// The response that says so.
        response: IssuedResponse,
    },
}

/// What a [`ResponseOutcome`] says.
#[verifier::ext_equal]
pub enum ResponseOutcomeView {
    Issued(IssuedResponseView),
    Denied { denial: Denial, response: IssuedResponseView },
}

impl View for ResponseOutcome {
    type V = ResponseOutcomeView;

    open spec fn view(&self) -> ResponseOutcomeView {
        match *self {
            ResponseOutcome::Issued(r) => ResponseOutcomeView::Issued(r@),
            ResponseOutcome::Denied { denial, response } => ResponseOutcomeView::Denied {
                denial,
                response: response@,
            },
        }
    }
}

} // verus!
