//! The configuration of the endpoints.

use crate::saml::metadata::{first_saml2, EntityDescriptor, SpSsoDescriptor};
use crate::text::{opt_text, same};
use vstd::prelude::*;

verus! {

/// The configuration of an identity provider's endpoints.
pub struct IdpConfig {
    /// The entity ID of the identity provider.
    pub entity_id: String,
    /// The URL of the single sign-on endpoint.
    pub sso_url: String,
    /// The URL of the single logout endpoint; empty where there is none.
    pub slo_url: String,
    /// The base64 DER signing certificate.
    pub signing_cert_b64: Option<String>,
    /// Whether assertions are signed.
    pub sign_assertions: bool,
    /// Whether responses are signed.
    pub sign_responses: bool,
    /// How long an assertion is valid.
    pub assertion_lifetime_seconds: u64,
    /// How long a session lasts.
    pub session_lifetime_seconds: u64,
    /// The service providers that are trusted.
    pub trusted_sps: Vec<EntityDescriptor>,
}

/// Where the entity with an ID is that was registered last: below zero if
/// there is none.
pub open spec fn last_with_id(entities: Seq<EntityDescriptor>, entity_id: Seq<char>) -> int
    decreases entities.len(),
{
    if entities.len() == 0 {
        -1
    } else if entities.last().entity_id@ == entity_id {
        entities.len() - 1
    } else {
        last_with_id(entities.drop_last(), entity_id)
    }
}

/// The entity with an ID that was registered last.
pub open spec fn registered(entities: Seq<EntityDescriptor>, entity_id: Seq<char>) -> Option<
    EntityDescriptor,
> {
    let at = last_with_id(entities, entity_id);
    if 0 <= at < entities.len() {
        Some(entities[at])
    } else {
        None
    }
}

/// An entity that is found is among those registered, and has the ID.
pub proof fn law_registered_has_the_id(entities: Seq<EntityDescriptor>, entity_id: Seq<char>)
    ensures
        -1 <= last_with_id(entities, entity_id) < entities.len(),
        registered(entities, entity_id) matches Some(e) ==> e.entity_id@ == entity_id
            && entities.contains(e),
        registered(entities, entity_id) is None ==> forall|i: int|
            0 <= i < entities.len() ==> (#[trigger] entities[i]).entity_id@ != entity_id,
    decreases entities.len(),
{
    if entities.len() > 0 {
        let front = entities.drop_last();
        law_registered_has_the_id(front, entity_id);
        if entities.last().entity_id@ != entity_id {
            let at = last_with_id(front, entity_id);
            if 0 <= at {
                assert(entities[at] == front[at]);
            } else {
                assert forall|i: int| 0 <= i < entities.len() implies (
                #[trigger] entities[i]).entity_id@ != entity_id by {
                    if i < front.len() {
                        assert(front[i] == entities[i]);
                    }
                }
            }
        } else {
            assert(entities[entities.len() - 1] == entities.last());
        }
    }
}

/// What an optional borrowed entity is.
pub open spec fn opt_entity(e: Option<&EntityDescriptor>) -> Option<EntityDescriptor> {
    match e {
        Some(x) => Some(*x),
        None => None,
    }
}

impl IdpConfig {
    /// A configuration that trusts no service provider, signs assertions and
    /// responses, and has no logout endpoint.
    pub fn new(entity_id: &str, sso_url: &str) -> (result: Self)
        ensures
            result.entity_id@ == entity_id@,
            result.sso_url@ == sso_url@,
            result.slo_url@ == Seq::<char>::empty(),
            result.signing_cert_b64 is None,
            result.sign_assertions,
            result.sign_responses,
            result.assertion_lifetime_seconds == 300,
            result.session_lifetime_seconds == 28_800,
            result.trusted_sps@.len() == 0,
    {
        IdpConfig {
            entity_id: entity_id.to_owned(),
            sso_url: sso_url.to_owned(),
            slo_url: String::new(),
            signing_cert_b64: None,
            sign_assertions: true,
            sign_responses: true,
            assertion_lifetime_seconds: 300,
            session_lifetime_seconds: 28_800,
            trusted_sps: Vec::new(),
        }
    }

    /// Trust a service provider, under its own entity ID.
    pub fn with_trusted_sp(self, entity: EntityDescriptor) -> (result: Self)
        ensures
            result.trusted_sps@ == self.trusted_sps@.push(entity),
            result == (IdpConfig { trusted_sps: result.trusted_sps, ..self }),
    {
        let mut trusted_sps = self.trusted_sps;
        trusted_sps.push(entity);
        IdpConfig { trusted_sps, ..self }
    }

    /// Set the signing certificate.
    pub fn with_signing_cert(self, cert_b64: &str) -> (result: Self)
        ensures
            opt_text(result.signing_cert_b64) == Some(cert_b64@),
            result == (IdpConfig { signing_cert_b64: result.signing_cert_b64, ..self }),
    {
        IdpConfig { signing_cert_b64: Some(cert_b64.to_owned()), ..self }
    }

    /// Set the URL of the single logout endpoint.
    pub fn with_slo_url(self, slo_url: &str) -> (result: Self)
        ensures
            result.slo_url@ == slo_url@,
            result == (IdpConfig { slo_url: result.slo_url, ..self }),
    {
        IdpConfig { slo_url: slo_url.to_owned(), ..self }
    }

    /// The trusted entity with an ID.
    pub fn trusted_sp_entity(&self, entity_id: &str) -> (result: Option<&EntityDescriptor>)
        ensures
            opt_entity(result) == registered(self.trusted_sps@, entity_id@),
    {
        let ghost all = self.trusted_sps@;
        let mut i: usize = self.trusted_sps.len();
        assert(all.take(all.len() as int) == all);
        while i > 0
            invariant
                i <= all.len(),
                all == self.trusted_sps@,
                last_with_id(all, entity_id@) == last_with_id(all.take(i as int), entity_id@),
            decreases i,
        {
            i -= 1;
            assert(all.take(i + 1).last() == all[i as int]);
            assert(all.take(i + 1).drop_last() == all.take(i as int));
            if same(self.trusted_sps[i].entity_id.as_str(), entity_id) {
                return Some(&self.trusted_sps[i]);
            }
        }
        None
    }

    /// The SAML 2.0 service provider role of the trusted entity with an ID.
    pub fn trusted_sp(&self, entity_id: &str) -> (result: Option<&SpSsoDescriptor>)
        ensures
            opt_role(result) == saml2_role(registered(self.trusted_sps@, entity_id@)),
    {
        match self.trusted_sp_entity(entity_id) {
            Some(e) => e.saml2_sp_sso_descriptor(),
            None => None,
        }
    }
}

/// The SAML 2.0 service provider role of an entity, if there is one.
pub open spec fn saml2_role(e: Option<EntityDescriptor>) -> Option<SpSsoDescriptor> {
    match e {
        Some(x) => if first_saml2(x.sp_sso@) < x.sp_sso@.len() {
            Some(x.sp_sso@[first_saml2(x.sp_sso@) as int])
        } else {
            None
        },
        None => None,
    }
}

/// What an optional borrowed role is.
pub open spec fn opt_role(r: Option<&SpSsoDescriptor>) -> Option<SpSsoDescriptor> {
    match r {
        Some(x) => Some(*x),
        None => None,
    }
}

/// The entity that is trusted under an ID: the registered one, else the one
/// that a resolver fetched, if it is the entity that was asked for.
pub open spec fn trusted_entity(
    entities: Seq<EntityDescriptor>,
    entity_id: Seq<char>,
    fetched: Option<EntityDescriptor>,
) -> Option<EntityDescriptor> {
    match registered(entities, entity_id) {
        Some(e) => Some(e),
        None => match fetched {
            Some(f) => if f.entity_id@ == entity_id {
                Some(f)
            } else {
                None
            },
            None => None,
        },
    }
}

/// Whatever a resolver fetches, an entity that is trusted under an ID has it.
pub proof fn law_trusted_entity_has_the_id(
    entities: Seq<EntityDescriptor>,
    entity_id: Seq<char>,
    fetched: Option<EntityDescriptor>,
)
    ensures
        trusted_entity(entities, entity_id, fetched) matches Some(e) ==> e.entity_id@ == entity_id,
{
    law_registered_has_the_id(entities, entity_id);
}

/// The entity that is trusted under an ID. `fetched` is what a resolver gave
/// for the ID, where there is a resolver.
pub fn resolve_trusted_sp_entity<'a>(
    config: &'a IdpConfig,
    entity_id: &str,
    fetched: Option<&'a EntityDescriptor>,
) -> (result: Option<&'a EntityDescriptor>)
    ensures
        opt_entity(result) == trusted_entity(
            config.trusted_sps@,
            entity_id@,
            opt_entity(fetched),
        ),
{
    match config.trusted_sp_entity(entity_id) {
        Some(e) => Some(e),
        None => match fetched {
            Some(f) => {
                if same(f.entity_id.as_str(), entity_id) {
                    Some(f)
                } else {
                    None
                }
            },
            None => None,
        },
    }
}

/// The SAML 2.0 service provider role that is trusted under an ID.
pub fn resolve_trusted_sp<'a>(
    config: &'a IdpConfig,
    entity_id: &str,
    fetched: Option<&'a EntityDescriptor>,
) -> (result: Option<&'a SpSsoDescriptor>)
    ensures
        opt_role(result) == saml2_role(
            trusted_entity(config.trusted_sps@, entity_id@, opt_entity(fetched)),
        ),
{
    match resolve_trusted_sp_entity(config, entity_id, fetched) {
        Some(e) => e.saml2_sp_sso_descriptor(),
        None => None,
    }
}

} // verus!
