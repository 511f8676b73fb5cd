//! The owned parts of a response engine.

use crate::idp::assertion_store::AssertionStore;
use crate::idp::authn_broker::AuthnBroker;
use crate::idp::ident::db::NameIdConstructor;
use crate::idp::orchestrator::release::AttributeRelease;
use crate::idp::orchestrator::respond::ResponseEngine;
use crate::idp::policy::ReleasePolicy;
use crate::saml::signing::SamlSigner;
use std::sync::Arc;
use vstd::prelude::*;

verus! {

/// What a response engine needs, owned, so that it can be set up once and lent
/// to an engine for each request.
pub struct ResponseEngineParts<
    R: AttributeRelease,
    N: NameIdConstructor,
    A: AssertionStore,
    F: Fn(&str) -> Result<String, String>,
> {
    /// This identity provider's entity ID.
    pub idp_entity_id: String,
    /// What is decided for each service provider.
    pub decisions: Arc<ReleasePolicy>,
    /// The attribute-release seam.
    pub release: R,
    /// The identity database.
    pub idents: N,
    /// The authentication methods.
    pub broker: Arc<AuthnBroker>,
    /// The assertion store, if back-channel queries are to be answered.
    pub assertions: Option<A>,
    /// The signer.
    pub signer: Arc<SamlSigner<F>>,
    /// The base64 DER signing certificate.
    pub cert_der_b64: String,
}

impl<
    N: NameIdConstructor,
    A: AssertionStore,
    F: Fn(&str) -> Result<String, String>,
> ResponseEngineParts<Arc<ReleasePolicy>, N, A, F> {
    /// The parts for an identity provider that holds the attributes: its
    /// decisions are also its release.
    pub fn new(
        idp_entity_id: &str,
        decisions: Arc<ReleasePolicy>,
        idents: N,
        broker: Arc<AuthnBroker>,
        signer: Arc<SamlSigner<F>>,
        cert_der_b64: &str,
    ) -> (result: Self)
        ensures
            result.idp_entity_id@ == idp_entity_id@,
            result.decisions == decisions,
            result.release == decisions,
            result.idents == idents,
            result.broker == broker,
            result.assertions is None,
            result.signer == signer,
            result.cert_der_b64@ == cert_der_b64@,
    {
        let release = decisions.clone();
        ResponseEngineParts {
            idp_entity_id: idp_entity_id.to_owned(),
            decisions,
            release,
            idents,
            broker,
            assertions: None,
            signer,
            cert_der_b64: cert_der_b64.to_owned(),
        }
    }
}

impl<
    R: AttributeRelease,
    N: NameIdConstructor,
    A: AssertionStore,
    F: Fn(&str) -> Result<String, String>,
> ResponseEngineParts<R, N, A, F> {
    /// Use another release, such as that of a proxy.
    pub fn with_release<S: AttributeRelease>(self, release: S) -> (result: ResponseEngineParts<
        S,
        N,
        A,
        F,
    >)
        ensures
            result.release == release,
            result.idp_entity_id == self.idp_entity_id,
            result.decisions == self.decisions,
            result.idents == self.idents,
            result.broker == self.broker,
            result.assertions == self.assertions,
            result.signer == self.signer,
            result.cert_der_b64 == self.cert_der_b64,
    {
        ResponseEngineParts {
            idp_entity_id: self.idp_entity_id,
            decisions: self.decisions,
            release,
            idents: self.idents,
            broker: self.broker,
            assertions: self.assertions,
            signer: self.signer,
            cert_der_b64: self.cert_der_b64,
        }
    }

    /// Keep issued assertions in a store.
    pub fn with_assertions(self, assertions: A) -> (result: Self)
        ensures
            result == (ResponseEngineParts { assertions: Some(assertions), ..self }),
    {
        ResponseEngineParts { assertions: Some(assertions), ..self }
    }

    /// Lend the parts to an engine for one request.
    pub fn engine(&mut self) -> (result: ResponseEngine<'_, R, N, A, F>)
        ensures
            result.idp_entity_id@ == old(self).idp_entity_id@,
            *result.decisions == *old(self).decisions,
            *result.release == old(self).release,
            *result.idents == old(self).idents,
            *result.broker == *old(self).broker,
            result.assertions is Some == old(self).assertions is Some,
            old(self).assertions is Some ==> *result.assertions->0 == old(self).assertions->0,
            *result.signer == *old(self).signer,
            result.cert_der_b64@ == old(self).cert_der_b64@,
            final(self).idp_entity_id == old(self).idp_entity_id,
            final(self).decisions == old(self).decisions,
            final(self).release == old(self).release,
            final(self).idents == *final(result.idents),
            final(self).broker == old(self).broker,
            final(self).assertions is Some == old(self).assertions is Some,
            old(self).assertions is Some ==> final(self).assertions->0
                == *final(result.assertions->0),
            final(self).signer == old(self).signer,
            final(self).cert_der_b64 == old(self).cert_der_b64,
    {
        let assertions = match &mut self.assertions {
            Some(a) => Some(a),
            None => None,
        };
        ResponseEngine {
            idp_entity_id: self.idp_entity_id.as_str(),
            decisions: &*self.decisions,
            release: &self.release,
            idents: &mut self.idents,
            broker: &*self.broker,
            assertions,
            signer: &*self.signer,
            cert_der_b64: self.cert_der_b64.as_str(),
        }
    }
}

} // verus!
