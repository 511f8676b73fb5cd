//! What the metadata of a service provider says.

use super::attribute::{
    clone_requests, requested_views, RequestedAttribute, RequestedAttributeView,
};
use super::constants::{ENTITY_CATEGORY_ATTR, PROTOCOL_SAML2};
use crate::text::{clone_strings, contains_text, same, texts};
use vstd::prelude::*;

verus! {

/// A `<md:AttributeConsumingService>`.
#[derive(Debug)]
pub struct AttributeConsumingService {
    /// The `index` attribute.
    pub index: u16,
    /// The `isDefault` attribute.
    pub is_default: Option<bool>,
    /// The attributes that the service asks for.
    pub requested_attributes: Vec<RequestedAttribute>,
}

/// What an [`AttributeConsumingService`] says.
#[verifier::ext_equal]
pub struct ServiceView {
    pub index: u16,
    pub is_default: Option<bool>,
    pub requested: Seq<RequestedAttributeView>,
}

impl View for AttributeConsumingService {
    type V = ServiceView;

    open spec fn view(&self) -> ServiceView {
        ServiceView {
            index: self.index,
            is_default: self.is_default,
            requested: requested_views(self.requested_attributes@),
        }
    }
}

impl Clone for AttributeConsumingService {
    fn clone(&self) -> (result: Self)
        ensures
            result@ == self@,
    {
        AttributeConsumingService {
            index: self.index,
            is_default: self.is_default,
            requested_attributes: clone_requests(self.requested_attributes.as_slice()),
        }
    }
}

/// What a list of services says.
pub open spec fn service_views(v: Seq<AttributeConsumingService>) -> Seq<ServiceView> {
    Seq::new(v.len(), |i: int| v[i]@)
}

fn clone_services(services: &[AttributeConsumingService]) -> (result: Vec<AttributeConsumingService>)
    ensures
        service_views(result@) == service_views(services@),
{
    let mut out: Vec<AttributeConsumingService> = Vec::new();
    let mut i: usize = 0;
    while i < services.len()
        invariant
            i <= services@.len(),
            out@.len() == i,
            forall|k: int| 0 <= k < i ==> (#[trigger] out@[k])@ == services@[k]@,
        decreases services@.len() - i,
    {
        out.push(services[i].clone());
        i += 1;
    }
    assert(service_views(out@) == service_views(services@));
    out
}

/// A `<md:SPSSODescriptor>`.
#[derive(Debug)]
pub struct SpSsoDescriptor {
    /// The protocols the role supports.
    pub protocols: Vec<String>,
    /// The `AuthnRequestsSigned` attribute.
    pub authn_requests_signed: Option<bool>,
    /// The `WantAssertionsSigned` attribute.
    pub want_assertions_signed: Option<bool>,
    /// The attribute consuming services.
    pub attribute_consuming_services: Vec<AttributeConsumingService>,
    /// The signing certificates, as base64 DER.
    pub signing_certs: Vec<String>,
}

impl SpSsoDescriptor {
    /// What the services of the descriptor say.
    pub open spec fn services(self) -> Seq<ServiceView> {
        service_views(self.attribute_consuming_services@)
    }

    /// Whether the service provider wants assertions signed.
    pub open spec fn wants_assertions_signed(self) -> bool {
        self.want_assertions_signed == Some(true)
    }

    /// Whether the role supports SAML 2.0.
    pub open spec fn is_saml2(self) -> bool {
        texts(self.protocols@).contains(PROTOCOL_SAML2@)
    }
}

/// Whether two roles say the same.
pub open spec fn same_role(a: SpSsoDescriptor, b: SpSsoDescriptor) -> bool {
    &&& texts(a.protocols@) == texts(b.protocols@)
    &&& a.authn_requests_signed == b.authn_requests_signed
    &&& a.want_assertions_signed == b.want_assertions_signed
    &&& a.services() == b.services()
    &&& texts(a.signing_certs@) == texts(b.signing_certs@)
}

impl Clone for SpSsoDescriptor {
    fn clone(&self) -> (result: Self)
        ensures
            same_role(result, *self),
    {
        SpSsoDescriptor {
            protocols: clone_strings(self.protocols.as_slice()),
            authn_requests_signed: self.authn_requests_signed,
            want_assertions_signed: self.want_assertions_signed,
            attribute_consuming_services: clone_services(
                self.attribute_consuming_services.as_slice(),
            ),
            signing_certs: clone_strings(self.signing_certs.as_slice()),
        }
    }
}

/// An attribute of an entity, from `<mdattr:EntityAttributes>`.
#[derive(Debug, Clone)]
pub struct EntityAttribute {
    /// The name of the attribute.
    pub name: String,
    /// Its values.
    pub values: Vec<String>,
}

/// A `<md:EntityDescriptor>` of a service provider.
#[derive(Debug, Clone)]
pub struct EntityDescriptor {
    /// The entity ID.
    pub entity_id: String,
    /// The entity attributes.
    pub entity_attributes: Vec<EntityAttribute>,
    /// The service provider roles.
    pub sp_sso: Vec<SpSsoDescriptor>,
}

/// The values that entity attributes of the given name have, in order.
pub open spec fn values_named(attributes: Seq<EntityAttribute>, name: Seq<char>) -> Seq<Seq<char>>
    decreases attributes.len(),
{
    if attributes.len() == 0 {
        Seq::empty()
    } else {
        let before = values_named(attributes.drop_last(), name);
        if attributes.last().name@ == name {
            before + texts(attributes.last().values@)
        } else {
            before
        }
    }
}

/// Where the first SAML 2.0 service provider role is: the number of roles if
/// there is none.
pub open spec fn first_saml2(roles: Seq<SpSsoDescriptor>) -> nat
    decreases roles.len(),
{
    if roles.len() == 0 || roles[0].is_saml2() {
        0
    } else {
        1 + first_saml2(roles.skip(1))
    }
}

impl EntityDescriptor {
    /// A descriptor of an entity with one service provider role.
    pub fn for_sp(entity_id: &str, sp_sso: SpSsoDescriptor) -> (result: EntityDescriptor)
        ensures
            result.entity_id@ == entity_id@,
            result.entity_attributes@.len() == 0,
            result.sp_sso@ == seq![sp_sso],
    {
        let mut roles: Vec<SpSsoDescriptor> = Vec::new();
        roles.push(sp_sso);
        EntityDescriptor {
            entity_id: entity_id.to_owned(),
            entity_attributes: Vec::new(),
            sp_sso: roles,
        }
    }

    /// The values of the entity attributes of a name.
    pub fn entity_attribute_values(&self, name: &str) -> (result: Vec<String>)
        ensures
            texts(result@) == values_named(self.entity_attributes@, name@),
    {
        let mut out: Vec<String> = Vec::new();
        let mut i: usize = 0;
        let ghost all = self.entity_attributes@;
        assert(texts(out@) == values_named(all.take(0), name@));
        while i < self.entity_attributes.len()
            invariant
                i <= all.len(),
                all == self.entity_attributes@,
                texts(out@) == values_named(all.take(i as int), name@),
            decreases all.len() - i,
        {
            proof {
                assert(all.take(i + 1).drop_last() == all.take(i as int));
                assert(all.take(i + 1).last() == all[i as int]);
            }
            let attribute = &self.entity_attributes[i];
            if same(attribute.name.as_str(), name) {
                let ghost before = texts(out@);
                let mut more = clone_strings(attribute.values.as_slice());
                let ghost added = texts(more@);
                out.append(&mut more);
                assert(texts(out@) == before + added);
            }
            i += 1;
        }
        assert(all.take(all.len() as int) == all);
        out
    }

    /// The entity categories that the entity publishes.
    pub fn entity_categories(&self) -> (result: Vec<String>)
        ensures
            texts(result@) == values_named(self.entity_attributes@, ENTITY_CATEGORY_ATTR@),
    {
        self.entity_attribute_values(ENTITY_CATEGORY_ATTR)
    }

    /// The first service provider role that supports SAML 2.0.
    pub fn saml2_sp_sso_descriptor(&self) -> (result: Option<&SpSsoDescriptor>)
        ensures
            match result {
                Some(sp) => first_saml2(self.sp_sso@) < self.sp_sso@.len() && *sp
                    == self.sp_sso@[first_saml2(self.sp_sso@) as int],
                None => first_saml2(self.sp_sso@) == self.sp_sso@.len(),
            },
    {
        let ghost all = self.sp_sso@;
        let mut i: usize = 0;
        assert(all.skip(0) == all);
        while i < self.sp_sso.len()
            invariant
                i <= all.len(),
                all == self.sp_sso@,
                first_saml2(all) == i + first_saml2(all.skip(i as int)),
            decreases all.len() - i,
        {
            assert(all.skip(i as int)[0] == all[i as int]);
            assert(all.skip(i as int).skip(1) == all.skip(i + 1));
            if contains_text(self.sp_sso[i].protocols.as_slice(), PROTOCOL_SAML2) {
                return Some(&self.sp_sso[i]);
            }
            i += 1;
        }
        None
    }
}

} // verus!
