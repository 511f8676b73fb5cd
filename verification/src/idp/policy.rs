//! The release policy: what is decided for each service provider, and which
//! attributes it gets.

use super::entity_category::{
    allowed_by, goes_by, is_allowed_by, EntityCategoryPolicy, SubjectIdReq,
};
use crate::saml::attribute::{
    attribute_views, clone_requests, requested_views, value_texts, Attribute, AttributeValue,
    AttributeView, RequestedAttribute, RequestedAttributeView,
};
use crate::saml::constants::NAMEID_TRANSIENT;
use crate::saml::metadata::{service_views, ServiceView, SpSsoDescriptor};
use crate::saml::time::TimeDelta;
use crate::text::{contains_text, same, texts};
use vstd::prelude::*;

verus! {

/// Why attributes are not released.
#[derive(Debug, Clone, PartialEq, Eq)]
pub enum PolicyError {
    /// A required attribute is missing.
    MissingRequiredAttribute(String),
    /// A required attribute is there, but with none of the required values.
    MissingRequiredValue {
        /// The attribute.
        attribute: String,
    },
    /// The release is misconfigured.
    Misconfigured(String),
}

/// What a [`PolicyError`] says.
#[verifier::ext_equal]
pub enum PolicyErrorView {
    MissingRequiredAttribute(Seq<char>),
    MissingRequiredValue(Seq<char>),
    Misconfigured(Seq<char>),
}

impl View for PolicyError {
    type V = PolicyErrorView;

    open spec fn view(&self) -> PolicyErrorView {
        match *self {
            PolicyError::MissingRequiredAttribute(name) => {
                PolicyErrorView::MissingRequiredAttribute(name@)
            },
            PolicyError::MissingRequiredValue { attribute } => {
                PolicyErrorView::MissingRequiredValue(attribute@)
            },
            PolicyError::Misconfigured(what) => PolicyErrorView::Misconfigured(what@),
        }
    }
}

/// Which parts of a response are signed for a service provider.
#[derive(Debug, Clone, Copy, PartialEq, Eq, Structural)]
pub struct SignTargets {
    /// Sign the response.
    pub response: bool,
    /// Sign the assertion.
    pub assertion: bool,
    /// Sign the assertion where the service provider wants it signed.
    pub on_demand: bool,
}

/// Which parts of one response are signed.
#[derive(Debug, Clone, Copy, PartialEq, Eq, Structural)]
pub struct SignDecision {
    /// Sign the assertion.
    pub sign_assertion: bool,
    /// Sign the response.
    pub sign_response: bool,
}

impl SignTargets {
    /// Which parts are signed, given what the service provider wants.
    pub open spec fn resolved(self, want_assertions_signed: bool) -> SignDecision {
        SignDecision {
            sign_assertion: self.assertion || (self.on_demand && want_assertions_signed),
            sign_response: self.response,
        }
    }

    /// Which parts are signed, given what the service provider wants.
    pub fn resolve(&self, want_assertions_signed: bool) -> (result: SignDecision)
        ensures
            result == self.resolved(want_assertions_signed),
    {
        SignDecision {
            sign_assertion: self.assertion || (self.on_demand && want_assertions_signed),
            sign_response: self.response,
        }
    }
}

/// An attribute that may be released, and with which values.
#[derive(Debug, Clone)]
pub struct AttributeRestriction {
    /// The attribute, by name or friendly name.
    pub name: String,
    /// The values that may be released; any where absent.
    pub values: Option<Vec<String>>,
}

/// What is decided for a service provider.
#[derive(Debug, Clone)]
pub struct PolicyEntry {
    /// How long an assertion is valid.
    pub lifetime: TimeDelta,
    /// How long a session lasts; as long as an assertion where absent.
    pub session_lifetime: Option<TimeDelta>,
    /// The NameID format where the request asks for none.
    pub nameid_format: String,
    /// What is signed.
    pub sign: SignTargets,
    /// Whether a missing required attribute fails the request.
    pub fail_on_missing_requested: bool,
    /// What is released by entity category; everything where there is none.
    pub entity_categories: Vec<EntityCategoryPolicy>,
    /// What may be released; everything where absent.
    pub attribute_restrictions: Option<Vec<AttributeRestriction>>,
}

impl PolicyEntry {
    /// One hour, transient NameIDs, nothing signed, nothing restricted, and a
    /// missing required attribute fails.
    pub fn new() -> (result: Self)
        ensures
            result.lifetime == (TimeDelta { nanos: 3_600_000_000_000 }),
            result.session_lifetime is None,
            result.nameid_format@ == NAMEID_TRANSIENT@,
            result.sign == (SignTargets { response: false, assertion: false, on_demand: false }),
            result.fail_on_missing_requested,
            result.entity_categories@.len() == 0,
            result.attribute_restrictions is None,
    {
        PolicyEntry {
            lifetime: TimeDelta::seconds(3600),
            session_lifetime: None,
            nameid_format: NAMEID_TRANSIENT.to_owned(),
            sign: SignTargets { response: false, assertion: false, on_demand: false },
            fail_on_missing_requested: true,
            entity_categories: Vec::new(),
            attribute_restrictions: None,
        }
    }

    /// Set how long an assertion is valid.
    pub fn with_lifetime(self, lifetime: TimeDelta) -> (result: Self)
        ensures
            result == (PolicyEntry { lifetime, ..self }),
    {
        PolicyEntry { lifetime, ..self }
    }

    /// Set how long a session lasts.
    pub fn with_session_lifetime(self, lifetime: TimeDelta) -> (result: Self)
        ensures
            result == (PolicyEntry { session_lifetime: Some(lifetime), ..self }),
    {
        PolicyEntry { session_lifetime: Some(lifetime), ..self }
    }

    /// Set the NameID format where the request asks for none.
    pub fn with_nameid_format(self, format: &str) -> (result: Self)
        ensures
            result.nameid_format@ == format@,
            result == (PolicyEntry { nameid_format: result.nameid_format, ..self }),
    {
        PolicyEntry { nameid_format: format.to_owned(), ..self }
    }

    /// Set what is signed.
    pub fn with_sign(self, sign: SignTargets) -> (result: Self)
        ensures
            result == (PolicyEntry { sign, ..self }),
    {
        PolicyEntry { sign, ..self }
    }

    /// Set whether a missing required attribute fails the request.
    pub fn with_fail_on_missing_requested(self, fail: bool) -> (result: Self)
        ensures
            result == (PolicyEntry { fail_on_missing_requested: fail, ..self }),
    {
        PolicyEntry { fail_on_missing_requested: fail, ..self }
    }

    /// Set what is released by entity category.
    pub fn with_entity_categories(self, policies: Vec<EntityCategoryPolicy>) -> (result: Self)
        ensures
            result == (PolicyEntry { entity_categories: policies, ..self }),
    {
        PolicyEntry { entity_categories: policies, ..self }
    }

    /// Set what may be released.
    pub fn with_attribute_restrictions(self, restrictions: Vec<AttributeRestriction>) -> (result:
        Self)
        ensures
            result == (PolicyEntry { attribute_restrictions: Some(restrictions), ..self }),
    {
        PolicyEntry { attribute_restrictions: Some(restrictions), ..self }
    }
}

/// Whether a request for an attribute lists no values, and so takes any.
pub open spec fn takes_any(r: RequestedAttributeView) -> bool {
    r.attribute.values.len() == 0
}

/// Whether one of some requests asks for an attribute.
pub open spec fn asked_for(rs: Seq<RequestedAttributeView>, name: Seq<char>) -> bool {
    exists|i: int| 0 <= i < rs.len() && (#[trigger] rs[i]).attribute.name == name
}

/// Whether one of some requests asks for an attribute with any value.
pub open spec fn asked_openly(rs: Seq<RequestedAttributeView>, name: Seq<char>) -> bool {
    exists|i: int|
        0 <= i < rs.len() && (#[trigger] rs[i]).attribute.name == name && takes_any(rs[i])
}

/// Whether one of some requests asks for an attribute with a value.
pub open spec fn asked_value(
    rs: Seq<RequestedAttributeView>,
    name: Seq<char>,
    value: Seq<char>,
) -> bool {
    exists|i: int|
        0 <= i < rs.len() && (#[trigger] rs[i]).attribute.name == name
            && rs[i].attribute.values.contains(value)
}

/// Whether a restriction is for an attribute.
pub open spec fn restricts(r: AttributeRestriction, a: AttributeView) -> bool {
    goes_by(a.name, a.friendly_name, r.name@)
}

/// Whether one of some restrictions lets an attribute go.
pub open spec fn unrestricted(rs: Seq<AttributeRestriction>, a: AttributeView) -> bool {
    exists|i: int| 0 <= i < rs.len() && restricts(#[trigger] rs[i], a)
}

/// Whether one of some restrictions lets an attribute go with any value.
pub open spec fn unrestricted_openly(rs: Seq<AttributeRestriction>, a: AttributeView) -> bool {
    exists|i: int| 0 <= i < rs.len() && restricts(#[trigger] rs[i], a) && rs[i].values is None
}

/// Whether one of some restrictions lets an attribute go with a value.
pub open spec fn unrestricted_value(
    rs: Seq<AttributeRestriction>,
    a: AttributeView,
    value: Seq<char>,
) -> bool {
    exists|i: int|
        0 <= i < rs.len() && restricts(#[trigger] rs[i], a) && (rs[i].values matches Some(vs)
            && texts(vs@).contains(value))
}

/// An attribute with the values that pass, or nothing where none does.
pub open spec fn with_values(a: AttributeView, pass: spec_fn(Seq<char>) -> bool) -> Option<
    AttributeView,
> {
    let values = a.values.filter(pass);
    if values.len() == 0 {
        None
    } else {
        Some(AttributeView { values, ..a })
    }
}

/// What is left of an attribute after entity categories: where there are
/// policies, only what one of them lets go, and the needed subject identifier.
pub open spec fn by_category(
    entry: PolicyEntry,
    categories: Seq<Seq<char>>,
    req: SubjectIdReq,
    a: AttributeView,
) -> Option<AttributeView> {
    if entry.entity_categories@.len() == 0 || req.needs(a.name) || allowed_by(
        entry.entity_categories@,
        categories,
        a.name,
        a.friendly_name,
    ) {
        Some(a)
    } else {
        None
    }
}

/// What is left of an attribute after the service provider's own requests:
/// where it asks for any attributes, only what it asks for.
pub open spec fn by_request(rs: Seq<RequestedAttributeView>, a: AttributeView) -> Option<
    AttributeView,
> {
    if rs.len() == 0 || asked_openly(rs, a.name) {
        Some(a)
    } else if asked_for(rs, a.name) {
        with_values(a, |v: Seq<char>| asked_value(rs, a.name, v))
    } else {
        None
    }
}

/// What is left of an attribute after the restrictions, where there are any.
pub open spec fn by_restriction(entry: PolicyEntry, a: AttributeView) -> Option<AttributeView> {
    match entry.attribute_restrictions {
        None => Some(a),
        Some(rs) => if unrestricted_openly(rs@, a) {
            Some(a)
        } else if unrestricted(rs@, a) {
            with_values(a, |v: Seq<char>| unrestricted_value(rs@, a, v))
        } else {
            None
        },
    }
}

/// What is released of an attribute.
pub open spec fn released_of(
    entry: PolicyEntry,
    categories: Seq<Seq<char>>,
    rs: Seq<RequestedAttributeView>,
    req: SubjectIdReq,
    a: AttributeView,
) -> Option<AttributeView> {
    match by_category(entry, categories, req, a) {
        None => None,
        Some(b) => match by_request(rs, b) {
            None => None,
            Some(c) => by_restriction(entry, c),
        },
    }
}

/// What is released of a list of attributes, in order.
pub open spec fn released_all(
    entry: PolicyEntry,
    categories: Seq<Seq<char>>,
    rs: Seq<RequestedAttributeView>,
    req: SubjectIdReq,
    attributes: Seq<AttributeView>,
) -> Seq<AttributeView>
    decreases attributes.len(),
{
    if attributes.len() == 0 {
        Seq::empty()
    } else {
        let before = released_all(entry, categories, rs, req, attributes.drop_last());
        match released_of(entry, categories, rs, req, attributes.last()) {
            Some(a) => before.push(a),
            None => before,
        }
    }
}

/// Whether a list has an attribute.
pub open spec fn has_attribute(attributes: Seq<AttributeView>, name: Seq<char>) -> bool {
    exists|i: int| 0 <= i < attributes.len() && (#[trigger] attributes[i]).name == name
}

/// Whether an attribute has one of some values.
pub open spec fn has_one_of(a: AttributeView, values: Seq<Seq<char>>) -> bool {
    exists|j: int| 0 <= j < a.values.len() && values.contains(#[trigger] a.values[j])
}

/// Whether a list has an attribute with one of the values that a request
/// lists, or any value where it lists none.
pub open spec fn satisfies(attributes: Seq<AttributeView>, r: RequestedAttributeView) -> bool {
    exists|i: int|
        0 <= i < attributes.len() && (#[trigger] attributes[i]).name == r.attribute.name && (
        takes_any(r) || has_one_of(attributes[i], r.attribute.values))
}

/// What is missing of the attributes that are required: the first that is.
pub open spec fn missing(
    attributes: Seq<AttributeView>,
    required: Seq<RequestedAttributeView>,
) -> Option<PolicyErrorView>
    decreases required.len(),
{
    if required.len() == 0 {
        None
    } else if satisfies(attributes, required[0]) {
        missing(attributes, required.skip(1))
    } else if has_attribute(attributes, required[0].attribute.name) {
        Some(PolicyErrorView::MissingRequiredValue(required[0].attribute.name))
    } else {
        Some(PolicyErrorView::MissingRequiredAttribute(required[0].attribute.name))
    }
}

fn requests_value(rs: &[RequestedAttribute], name: &str, value: &str) -> (result: bool)
    ensures
        result == asked_value(requested_views(rs@), name@, value@),
{
    let mut i: usize = 0;
    while i < rs.len()
        invariant
            i <= rs@.len(),
            forall|k: int|
                0 <= k < i ==> !((#[trigger] requested_views(rs@)[k]).attribute.name == name@
                    && requested_views(rs@)[k].attribute.values.contains(value@)),
        decreases rs@.len() - i,
    {
        assert(requested_views(rs@)[i as int] == rs@[i as int]@);
        if same(rs[i].attribute.name.as_str(), name) && has_value(
            rs[i].attribute.values.as_slice(),
            value,
        ) {
            return true;
        }
        i += 1;
    }
    false
}

fn has_value(values: &[AttributeValue], value: &str) -> (result: bool)
    ensures
        result == value_texts(values@).contains(value@),
{
    let mut i: usize = 0;
    while i < values.len()
        invariant
            i <= values@.len(),
            forall|k: int| 0 <= k < i ==> value_texts(values@)[k] != value@,
        decreases values@.len() - i,
    {
        if same(values[i].as_str(), value) {
            assert(value_texts(values@)[i as int] == value@);
            return true;
        }
        i += 1;
    }
    false
}

/// Whether some requests ask for an attribute, and whether with any value.
fn requests_attribute(rs: &[RequestedAttribute], name: &str) -> (result: (bool, bool))
    ensures
        result.0 == asked_for(requested_views(rs@), name@),
        result.1 == asked_openly(requested_views(rs@), name@),
{
    let ghost all = requested_views(rs@);
    let mut asked = false;
    let mut openly = false;
    let mut i: usize = 0;
    while i < rs.len()
        invariant
            i <= rs@.len(),
            all == requested_views(rs@),
            asked == exists|k: int| 0 <= k < i && (#[trigger] all[k]).attribute.name == name@,
            openly == exists|k: int|
                0 <= k < i && (#[trigger] all[k]).attribute.name == name@ && takes_any(all[k]),
        decreases rs@.len() - i,
    {
        assert(all[i as int] == rs@[i as int]@);
        if same(rs[i].attribute.name.as_str(), name) {
            asked = true;
            if rs[i].attribute.values.len() == 0 {
                openly = true;
            }
        }
        i += 1;
    }
    (asked, openly)
}

fn restriction_for(r: &AttributeRestriction, a: &Attribute) -> (result: bool)
    ensures
        result == restricts(*r, a@),
{
    let friendly = match &a.friendly_name {
        Some(f) => same(f.as_str(), r.name.as_str()),
        None => false,
    };
    same(a.name.as_str(), r.name.as_str()) || friendly
}

fn restriction_allows_value(
    rs: &[AttributeRestriction],
    a: &Attribute,
    value: &str,
) -> (result: bool)
    ensures
        result == unrestricted_value(rs@, a@, value@),
{
    let mut i: usize = 0;
    while i < rs.len()
        invariant
            i <= rs@.len(),
            forall|k: int|
                0 <= k < i ==> !(restricts(#[trigger] rs@[k], a@) && (rs@[k].values matches Some(vs)
                    && texts(vs@).contains(value@))),
        decreases rs@.len() - i,
    {
        if restriction_for(&rs[i], a) {
            if let Some(vs) = &rs[i].values {
                if contains_text(vs.as_slice(), value) {
                    return true;
                }
            }
        }
        i += 1;
    }
    false
}

/// Whether some restrictions let an attribute go, and whether with any value.
fn restrictions_allow(rs: &[AttributeRestriction], a: &Attribute) -> (result: (bool, bool))
    ensures
        result.0 == unrestricted(rs@, a@),
        result.1 == unrestricted_openly(rs@, a@),
{
    let mut allowed = false;
    let mut openly = false;
    let mut i: usize = 0;
    while i < rs.len()
        invariant
            i <= rs@.len(),
            allowed == exists|k: int| 0 <= k < i && restricts(#[trigger] rs@[k], a@),
            openly == exists|k: int|
                0 <= k < i && restricts(#[trigger] rs@[k], a@) && rs@[k].values is None,
        decreases rs@.len() - i,
    {
        if restriction_for(&rs[i], a) {
            allowed = true;
            assert(restricts(rs@[i as int], a@));
            if rs[i].values.is_none() {
                openly = true;
            }
        }
        i += 1;
    }
    (allowed, openly)
}

/// An attribute cut to the values that requests ask for.
fn cut_to_requests(rs: &[RequestedAttribute], a: Attribute) -> (result: Option<Attribute>)
    ensures
        opt_attribute(result) == with_values(
            a@,
            |v: Seq<char>| asked_value(requested_views(rs@), a@.name, v),
        ),
{
    let ghost pass = |v: Seq<char>| asked_value(requested_views(rs@), a@.name, v);
    let ghost all = a@.values;
    let mut values: Vec<AttributeValue> = Vec::new();
    let mut i: usize = 0;
    proof {
        reveal(Seq::filter);
        assert(value_texts(values@) == all.take(0).filter(pass));
    }
    while i < a.values.len()
        invariant
            i <= a.values@.len(),
            all == value_texts(a.values@),
            pass == (|v: Seq<char>| asked_value(requested_views(rs@), a@.name, v)),
            value_texts(values@) == all.take(i as int).filter(pass),
        decreases a.values@.len() - i,
    {
        proof {
            reveal(Seq::filter);
            assert(all.take(i + 1).drop_last() == all.take(i as int));
            assert(all.take(i + 1).last() == a.values@[i as int]@);
        }
        let ghost before = value_texts(values@);
        if requests_value(rs, a.name.as_str(), a.values[i].as_str()) {
            values.push(a.values[i].clone());
            assert(value_texts(values@) == before.push(a.values@[i as int]@));
        }
        i += 1;
    }
    assert(all.take(all.len() as int) == all);
    assert(value_texts(values@).len() == values@.len());
    if values.len() == 0 {
        None
    } else {
        Some(
            Attribute {
                name: a.name,
                name_format: a.name_format,
                friendly_name: a.friendly_name,
                values,
            },
        )
    }
}

/// An attribute cut to the values that restrictions let go.
fn cut_to_restrictions(rs: &[AttributeRestriction], a: Attribute) -> (result: Option<Attribute>)
    ensures
        opt_attribute(result) == with_values(a@, |v: Seq<char>| unrestricted_value(rs@, a@, v)),
{
    let ghost pass = |v: Seq<char>| unrestricted_value(rs@, a@, v);
    let ghost all = a@.values;
    let mut values: Vec<AttributeValue> = Vec::new();
    let mut i: usize = 0;
    proof {
        reveal(Seq::filter);
        assert(value_texts(values@) == all.take(0).filter(pass));
    }
    while i < a.values.len()
        invariant
            i <= a.values@.len(),
            all == value_texts(a.values@),
            pass == (|v: Seq<char>| unrestricted_value(rs@, a@, v)),
            value_texts(values@) == all.take(i as int).filter(pass),
        decreases a.values@.len() - i,
    {
        proof {
            reveal(Seq::filter);
            assert(all.take(i + 1).drop_last() == all.take(i as int));
            assert(all.take(i + 1).last() == a.values@[i as int]@);
        }
        let ghost before = value_texts(values@);
        if restriction_allows_value(rs, &a, a.values[i].as_str()) {
            values.push(a.values[i].clone());
            assert(value_texts(values@) == before.push(a.values@[i as int]@));
        }
        i += 1;
    }
    assert(all.take(all.len() as int) == all);
    assert(value_texts(values@).len() == values@.len());
    if values.len() == 0 {
        None
    } else {
        Some(
            Attribute {
                name: a.name,
                name_format: a.name_format,
                friendly_name: a.friendly_name,
                values,
            },
        )
    }
}

/// What an optional attribute says.
pub open spec fn opt_attribute(a: Option<Attribute>) -> Option<AttributeView> {
    match a {
        Some(x) => Some(x@),
        None => None,
    }
}

impl PolicyEntry {
    /// What is released of an attribute.
    fn release_one(
        &self,
        a: Attribute,
        categories: &[String],
        rs: &[RequestedAttribute],
        req: SubjectIdReq,
    ) -> (result: Option<Attribute>)
        ensures
            opt_attribute(result) == released_of(
                *self,
                texts(categories@),
                requested_views(rs@),
                req,
                a@,
            ),
    {
        if !(self.entity_categories.len() == 0 || req.is_needed(a.name.as_str()) || is_allowed_by(
            self.entity_categories.as_slice(),
            categories,
            a.name.as_str(),
            &a.friendly_name,
        )) {
            return None;
        }
        assert(requested_views(rs@).len() == rs@.len());
        let requested = if rs.len() == 0 {
            a
        } else {
            let (asked, openly) = requests_attribute(rs, a.name.as_str());
            if openly {
                a
            } else if asked {
                match cut_to_requests(rs, a) {
                    Some(b) => b,
                    None => {
                        return None;
                    },
                }
            } else {
                return None;
            }
        };
        match &self.attribute_restrictions {
            None => Some(requested),
            Some(restrictions) => {
                let (allowed, openly) = restrictions_allow(restrictions.as_slice(), &requested);
                if openly {
                    Some(requested)
                } else if allowed {
                    cut_to_restrictions(restrictions.as_slice(), requested)
                } else {
                    None
                }
            },
        }
    }
}

/// The outcome of a release.
pub open spec fn release_outcome(r: Result<Vec<Attribute>, PolicyError>) -> Result<
    Seq<AttributeView>,
    PolicyErrorView,
> {
    match r {
        Ok(v) => Ok(attribute_views(v@)),
        Err(e) => Err(e@),
    }
}

/// A policy entry for one service provider.
#[derive(Debug, Clone)]
pub struct SpPolicy {
    /// The entity ID of the service provider.
    pub entity_id: String,
    /// What is decided for it.
    pub entry: PolicyEntry,
}

/// What is decided for each service provider.
#[derive(Debug, Clone)]
pub struct ReleasePolicy {
    default: PolicyEntry,
    per_sp: Vec<SpPolicy>,
}

/// Where the entry of a service provider is: the number of entries if it has
/// none.
pub open spec fn entry_at(per_sp: Seq<SpPolicy>, sp_entity_id: Seq<char>) -> nat
    decreases per_sp.len(),
{
    if per_sp.len() == 0 || per_sp[0].entity_id@ == sp_entity_id {
        0
    } else {
        1 + entry_at(per_sp.skip(1), sp_entity_id)
    }
}

/// What is released under an entry, or what is missing of what is required.
pub open spec fn filtered(
    entry: PolicyEntry,
    attributes: Seq<AttributeView>,
    categories: Seq<Seq<char>>,
    required: Seq<RequestedAttributeView>,
    optional: Seq<RequestedAttributeView>,
    req: SubjectIdReq,
) -> Result<Seq<AttributeView>, PolicyErrorView> {
    let out = released_all(entry, categories, required + optional, req, attributes);
    if entry.fail_on_missing_requested && missing(out, required) is Some {
        Err(missing(out, required)->0)
    } else {
        Ok(out)
    }
}

impl ReleasePolicy {
    /// The entry of a service provider: its own, or the default one.
    pub closed spec fn entry_of(&self, sp_entity_id: Seq<char>) -> PolicyEntry {
        let at = entry_at(self.per_sp@, sp_entity_id);
        if at < self.per_sp@.len() {
            self.per_sp@[at as int].entry
        } else {
            self.default
        }
    }

    /// The policy that decides for every service provider as
    /// [`PolicyEntry::new`] does; none has an entry of its own.
    pub fn new() -> (result: Self)
        ensures
            forall|sp: Seq<char>|
                {
                    let entry = #[trigger] result.entry_of(sp);
                    &&& entry.lifetime == (TimeDelta { nanos: 3_600_000_000_000 })
                    &&& entry.session_lifetime is None
                    &&& entry.nameid_format@ == NAMEID_TRANSIENT@
                    &&& entry.sign == (SignTargets {
                        response: false,
                        assertion: false,
                        on_demand: false,
                    })
                    &&& entry.fail_on_missing_requested
                    &&& entry.entity_categories@.len() == 0
                    &&& entry.attribute_restrictions is None
                },
            forall|sp: Seq<char>| !#[trigger] result.has_own(sp),
    {
        Self::with_default(PolicyEntry::new())
    }

    /// A policy that decides the same for every service provider; none has an
    /// entry of its own.
    pub fn with_default(entry: PolicyEntry) -> (result: Self)
        ensures
            forall|sp: Seq<char>| #[trigger] result.entry_of(sp) == entry,
            forall|sp: Seq<char>| !#[trigger] result.has_own(sp),
    {
        ReleasePolicy { default: entry, per_sp: Vec::new() }
    }

    /// Decide otherwise for one service provider. What was decided first for a
    /// service provider stands.
    pub fn with_sp(self, sp_entity_id: &str, entry: PolicyEntry) -> (result: Self)
        ensures
            self.has_own(sp_entity_id@) ==> result.entry_of(sp_entity_id@) == self.entry_of(
                sp_entity_id@,
            ),
            !self.has_own(sp_entity_id@) ==> result.entry_of(sp_entity_id@) == entry,
            result.has_own(sp_entity_id@),
            forall|sp: Seq<char>|
                sp != sp_entity_id@ ==> #[trigger] result.entry_of(sp) == self.entry_of(sp)
                    && result.has_own(sp) == self.has_own(sp),
    {
        let ghost before = self.per_sp@;
        let mut per_sp = self.per_sp;
        per_sp.push(SpPolicy { entity_id: sp_entity_id.to_owned(), entry });
        let result = ReleasePolicy { default: self.default, per_sp };
        proof {
            assert forall|sp: Seq<char>| #[trigger] entry_at(result.per_sp@, sp) == (if entry_at(
                before,
                sp,
            ) < before.len() {
                entry_at(before, sp)
            } else if sp == sp_entity_id@ {
                before.len()
            } else {
                before.len() + 1
            }) by {
                lemma_entry_at_push(before, result.per_sp@.last(), sp);
                assert(result.per_sp@ == before.push(result.per_sp@.last()));
            }
            assert forall|sp: Seq<char>| #[trigger] entry_at(before, sp) <= before.len() by {
                lemma_entry_at_push(before, result.per_sp@.last(), sp);
            }
        }
        result
    }

    /// Whether a service provider has an entry of its own.
    pub closed spec fn has_own(&self, sp_entity_id: Seq<char>) -> bool {
        entry_at(self.per_sp@, sp_entity_id) < self.per_sp@.len()
    }

    /// What is decided for a service provider.
    pub fn entry(&self, sp_entity_id: &str) -> (result: &PolicyEntry)
        ensures
            *result == self.entry_of(sp_entity_id@),
    {
        let ghost all = self.per_sp@;
        let mut i: usize = 0;
        assert(all.skip(0) == all);
        while i < self.per_sp.len()
            invariant
                i <= all.len(),
                all == self.per_sp@,
                entry_at(all, sp_entity_id@) == i + entry_at(all.skip(i as int), sp_entity_id@),
            decreases all.len() - i,
        {
            assert(all.skip(i as int)[0] == all[i as int]);
            assert(all.skip(i as int).skip(1) == all.skip(i + 1));
            if same(self.per_sp[i].entity_id.as_str(), sp_entity_id) {
                return &self.per_sp[i].entry;
            }
            i += 1;
        }
        &self.default
    }

    /// How long an assertion for a service provider is valid.
    pub fn lifetime(&self, sp_entity_id: &str) -> (result: TimeDelta)
        ensures
            result == self.entry_of(sp_entity_id@).lifetime,
    {
        self.entry(sp_entity_id).lifetime
    }

    /// How long a session with a service provider lasts.
    pub fn session_lifetime(&self, sp_entity_id: &str) -> (result: TimeDelta)
        ensures
            result == self.entry_of(sp_entity_id@).session_span(),
    {
        let entry = self.entry(sp_entity_id);
        match entry.session_lifetime {
            Some(d) => d,
            None => entry.lifetime,
        }
    }

    /// The NameID format where a request asks for none.
    pub fn nameid_format(&self, sp_entity_id: &str) -> (result: String)
        ensures
            result@ == self.entry_of(sp_entity_id@).nameid_format@,
    {
        self.entry(sp_entity_id).nameid_format.clone()
    }

    /// What is signed for a service provider.
    pub fn sign(&self, sp_entity_id: &str) -> (result: SignTargets)
        ensures
            result == self.entry_of(sp_entity_id@).sign,
    {
        self.entry(sp_entity_id).sign
    }

    /// Whether a missing required attribute fails a request.
    pub fn fail_on_missing_requested(&self, sp_entity_id: &str) -> (result: bool)
        ensures
            result == self.entry_of(sp_entity_id@).fail_on_missing_requested,
    {
        self.entry(sp_entity_id).fail_on_missing_requested
    }

    /// Release attributes to a service provider: by entity category, then by
    /// what it asks for, then by the restrictions. Where a missing required
    /// attribute fails, what is required has to be among them.
    pub fn filter(
        &self,
        attributes: Vec<Attribute>,
        sp_entity_id: &str,
        sp_entity_categories: &[String],
        required: &[RequestedAttribute],
        optional: &[RequestedAttribute],
        subject_id_req: SubjectIdReq,
    ) -> (result: Result<Vec<Attribute>, PolicyError>)
        ensures
            release_outcome(result) == filtered(
                self.entry_of(sp_entity_id@),
                attribute_views(attributes@),
                texts(sp_entity_categories@),
                requested_views(required@),
                requested_views(optional@),
                subject_id_req,
            ),
    {
        let entry = self.entry(sp_entity_id);
        let rs = all_requests(required, optional);
        let ghost all = attribute_views(attributes@);
        let ghost wanted = requested_views(rs@);
        let ghost categories = texts(sp_entity_categories@);
        let mut out: Vec<Attribute> = Vec::new();
        let mut i: usize = 0;
        assert(attribute_views(out@) == released_all(
            *entry,
            categories,
            wanted,
            subject_id_req,
            all.take(0),
        ));
        while i < attributes.len()
            invariant
                i <= attributes@.len(),
                all == attribute_views(attributes@),
                wanted == requested_views(rs@),
                categories == texts(sp_entity_categories@),
                attribute_views(out@) == released_all(
                    *entry,
                    categories,
                    wanted,
                    subject_id_req,
                    all.take(i as int),
                ),
            decreases attributes@.len() - i,
        {
            proof {
                assert(all.take(i + 1).drop_last() == all.take(i as int));
                assert(all.take(i + 1).last() == attributes@[i as int]@);
            }
            let ghost before = attribute_views(out@);
            if let Some(a) = entry.release_one(
                attributes[i].clone(),
                sp_entity_categories,
                rs.as_slice(),
                subject_id_req,
            ) {
                let ghost shown = a@;
                out.push(a);
                assert(attribute_views(out@) == before.push(shown));
            }
            i += 1;
        }
        assert(all.take(all.len() as int) == all);
        if entry.fail_on_missing_requested {
            if let Err(e) = self.validate_required_attributes(out.as_slice(), required) {
                return Err(e);
            }
        }
        Ok(out)
    }

    /// Whether released attributes have what is required; else the first that
    /// is missing.
    pub fn validate_required_attributes(
        &self,
        released: &[Attribute],
        required: &[RequestedAttribute],
    ) -> (result: Result<(), PolicyError>)
        ensures
            match result {
                Ok(()) => missing(attribute_views(released@), requested_views(required@)) is None,
                Err(e) => missing(attribute_views(released@), requested_views(required@)) == Some(
                    e@,
                ),
            },
    {
        let ghost all = requested_views(required@);
        let ghost have = attribute_views(released@);
        let mut i: usize = 0;
        assert(all.skip(0) == all);
        while i < required.len()
            invariant
                i <= required@.len(),
                all == requested_views(required@),
                have == attribute_views(released@),
                missing(have, all) == missing(have, all.skip(i as int)),
            decreases required@.len() - i,
        {
            let r = &required[i];
            proof {
                assert(all.skip(i as int)[0] == r@);
                assert(all.skip(i as int).skip(1) == all.skip(i + 1));
            }
            if !is_satisfied(released, r) {
                if is_present(released, r.attribute.name.as_str()) {
                    return Err(
                        PolicyError::MissingRequiredValue { attribute: r.attribute.name.clone() },
                    );
                }
                return Err(PolicyError::MissingRequiredAttribute(r.attribute.name.clone()));
            }
            i += 1;
        }
        Ok(())
    }
}

impl PolicyEntry {
    /// How long a session lasts: as long as an assertion, where nothing else
    /// is set.
    pub open spec fn session_span(self) -> TimeDelta {
        match self.session_lifetime {
            Some(d) => d,
            None => self.lifetime,
        }
    }
}

proof fn lemma_entry_at_push(per_sp: Seq<SpPolicy>, added: SpPolicy, sp: Seq<char>)
    ensures
        entry_at(per_sp, sp) <= per_sp.len(),
        entry_at(per_sp.push(added), sp) == if entry_at(per_sp, sp) < per_sp.len() {
            entry_at(per_sp, sp)
        } else if added.entity_id@ == sp {
            per_sp.len()
        } else {
            per_sp.len() + 1
        },
    decreases per_sp.len(),
{
    if per_sp.len() == 0 {
        assert(per_sp.push(added).skip(1) == per_sp);
    } else {
        lemma_entry_at_push(per_sp.skip(1), added, sp);
        assert(per_sp.push(added).skip(1) == per_sp.skip(1).push(added));
    }
}

fn all_requests(required: &[RequestedAttribute], optional: &[RequestedAttribute]) -> (result: Vec<
    RequestedAttribute,
>)
    ensures
        requested_views(result@) == requested_views(required@) + requested_views(optional@),
{
    let mut out = clone_requests(required);
    let ghost first = requested_views(out@);
    let mut more = clone_requests(optional);
    let ghost second = requested_views(more@);
    out.append(&mut more);
    assert(requested_views(out@) == first + second);
    out
}

fn is_present(attributes: &[Attribute], name: &str) -> (result: bool)
    ensures
        result == has_attribute(attribute_views(attributes@), name@),
{
    let mut i: usize = 0;
    while i < attributes.len()
        invariant
            i <= attributes@.len(),
            forall|k: int|
                0 <= k < i ==> (#[trigger] attribute_views(attributes@)[k]).name != name@,
        decreases attributes@.len() - i,
    {
        assert(attribute_views(attributes@)[i as int] == attributes@[i as int]@);
        if same(attributes[i].name.as_str(), name) {
            return true;
        }
        i += 1;
    }
    false
}

fn shares_value(a: &Attribute, values: &[AttributeValue]) -> (result: bool)
    ensures
        result == has_one_of(a@, value_texts(values@)),
{
    let mut i: usize = 0;
    while i < a.values.len()
        invariant
            i <= a.values@.len(),
            forall|k: int|
                0 <= k < i ==> !value_texts(values@).contains(#[trigger] a@.values[k]),
        decreases a.values@.len() - i,
    {
        assert(a@.values[i as int] == a.values@[i as int]@);
        if has_value(values, a.values[i].as_str()) {
            return true;
        }
        i += 1;
    }
    false
}

fn is_satisfied(attributes: &[Attribute], r: &RequestedAttribute) -> (result: bool)
    ensures
        result == satisfies(attribute_views(attributes@), r@),
{
    let mut i: usize = 0;
    let any = r.attribute.values.len() == 0;
    assert(any == takes_any(r@));
    while i < attributes.len()
        invariant
            i <= attributes@.len(),
            any == takes_any(r@),
            forall|k: int|
                0 <= k < i ==> !((#[trigger] attribute_views(attributes@)[k]).name
                    == r@.attribute.name && (takes_any(r@) || has_one_of(
                    attribute_views(attributes@)[k],
                    r@.attribute.values,
                ))),
        decreases attributes@.len() - i,
    {
        assert(attribute_views(attributes@)[i as int] == attributes@[i as int]@);
        if same(attributes[i].name.as_str(), r.attribute.name.as_str()) && (any || shares_value(
            &attributes[i],
            r.attribute.values.as_slice(),
        )) {
            return true;
        }
        i += 1;
    }
    false
}

/// Where the service with an index is: the number of services if there is none.
pub open spec fn service_at(services: Seq<ServiceView>, index: u16) -> nat
    decreases services.len(),
{
    if services.len() == 0 || services[0].index == index {
        0
    } else {
        1 + service_at(services.skip(1), index)
    }
}

/// Where the first service that is marked as the default is: the number of
/// services if there is none.
pub open spec fn default_at(services: Seq<ServiceView>) -> nat
    decreases services.len(),
{
    if services.len() == 0 || services[0].is_default == Some(true) {
        0
    } else {
        1 + default_at(services.skip(1))
    }
}

/// The attributes that the chosen service asks for. The index of a request
/// chooses a service; without one, the service that is marked as the default
/// is chosen, else the first; without any service nothing is asked for. An
/// index that no service has chooses nothing.
pub open spec fn chosen_requests(services: Seq<ServiceView>, index: Option<u16>) -> Option<
    Seq<RequestedAttributeView>,
> {
    match index {
        Some(i) => if service_at(services, i) < services.len() {
            Some(services[service_at(services, i) as int].requested)
        } else {
            None
        },
        None => if default_at(services) < services.len() {
            Some(services[default_at(services) as int].requested)
        } else if services.len() > 0 {
            Some(services[0].requested)
        } else {
            Some(Seq::empty())
        },
    }
}

/// The requests that are required, or those that are not.
pub open spec fn requests_with(rs: Seq<RequestedAttributeView>, required: bool) -> Seq<
    RequestedAttributeView,
> {
    rs.filter(|r: RequestedAttributeView| (r.is_required == Some(true)) == required)
}

fn select_requests(rs: &[RequestedAttribute], required: bool) -> (result: Vec<RequestedAttribute>)
    ensures
        requested_views(result@) == requests_with(requested_views(rs@), required),
{
    let ghost all = requested_views(rs@);
    let mut out: Vec<RequestedAttribute> = Vec::new();
    let mut i: usize = 0;
    proof {
        reveal(Seq::filter);
        assert(requested_views(out@) == requests_with(all.take(0), required));
    }
    while i < rs.len()
        invariant
            i <= rs@.len(),
            all == requested_views(rs@),
            requested_views(out@) == requests_with(all.take(i as int), required),
        decreases rs@.len() - i,
    {
        proof {
            reveal(Seq::filter);
            assert(all.take(i + 1).drop_last() == all.take(i as int));
            assert(all.take(i + 1).last() == rs@[i as int]@);
        }
        let ghost before = requested_views(out@);
        let is_required = match rs[i].is_required {
            Some(b) => b,
            None => false,
        };
        if is_required == required {
            out.push(rs[i].clone());
            assert(requested_views(out@) == before.push(rs@[i as int]@));
        }
        i += 1;
    }
    assert(all.take(all.len() as int) == all);
    out
}

fn find_service(sp: &SpSsoDescriptor, index: u16) -> (result: usize)
    ensures
        result == service_at(sp.services(), index),
        result <= sp.services().len(),
{
    let ghost all = sp.services();
    let mut i: usize = 0;
    assert(all.skip(0) == all);
    while i < sp.attribute_consuming_services.len()
        invariant
            i <= all.len(),
            all == service_views(sp.attribute_consuming_services@),
            service_at(all, index) == i + service_at(all.skip(i as int), index),
        decreases all.len() - i,
    {
        assert(all.skip(i as int)[0] == sp.attribute_consuming_services@[i as int]@);
        assert(all.skip(i as int).skip(1) == all.skip(i + 1));
        if sp.attribute_consuming_services[i].index == index {
            return i;
        }
        i += 1;
    }
    i
}

fn find_default_service(sp: &SpSsoDescriptor) -> (result: usize)
    ensures
        result == default_at(sp.services()),
        result <= sp.services().len(),
{
    let ghost all = sp.services();
    let mut i: usize = 0;
    assert(all.skip(0) == all);
    while i < sp.attribute_consuming_services.len()
        invariant
            i <= all.len(),
            all == service_views(sp.attribute_consuming_services@),
            default_at(all) == i + default_at(all.skip(i as int)),
        decreases all.len() - i,
    {
        assert(all.skip(i as int)[0] == sp.attribute_consuming_services@[i as int]@);
        assert(all.skip(i as int).skip(1) == all.skip(i + 1));
        if let Some(true) = sp.attribute_consuming_services[i].is_default {
            return i;
        }
        i += 1;
    }
    i
}

/// The required and the optional attributes that a service provider asks for,
/// or nothing where the index of the request names no service.
pub fn sp_attribute_requirements(sp: &SpSsoDescriptor, index: Option<u16>) -> (result: Option<
    (Vec<RequestedAttribute>, Vec<RequestedAttribute>),
>)
    ensures
        match result {
            Some((required, optional)) => chosen_requests(sp.services(), index) matches Some(rs)
                && requested_views(required@) == requests_with(rs, true) && requested_views(
                optional@,
            ) == requests_with(rs, false),
            None => chosen_requests(sp.services(), index) is None,
        },
{
    let n: usize = sp.attribute_consuming_services.len();
    let at: usize = match index {
        Some(i) => {
            let at: usize = find_service(sp, i);
            if at == n {
                return None;
            }
            at
        },
        None => {
            let at: usize = find_default_service(sp);
            if at < n {
                at
            } else {
                0
            }
        },
    };
    if at == n {
        let required: Vec<RequestedAttribute> = Vec::new();
        let optional: Vec<RequestedAttribute> = Vec::new();
        proof {
            reveal(Seq::filter);
            let none = Seq::<RequestedAttributeView>::empty();
            assert(requests_with(none, true) == requested_views(required@));
            assert(requests_with(none, false) == requested_views(optional@));
        }
        return Some((required, optional));
    }
    let rs = sp.attribute_consuming_services[at].requested_attributes.as_slice();
    assert(sp.services()[at as int].requested == requested_views(rs@));
    Some((select_requests(rs, true), select_requests(rs, false)))
}

/// Whether an attribute is part of another: the same attribute, with values
/// that the other has.
pub open spec fn is_part_of(a: AttributeView, held: AttributeView) -> bool {
    &&& a.name == held.name
    &&& a.name_format == held.name_format
    &&& a.friendly_name == held.friendly_name
    &&& forall|i: int| 0 <= i < a.values.len() ==> held.values.contains(#[trigger] a.values[i])
}

proof fn lemma_with_values(a: AttributeView, pass: spec_fn(Seq<char>) -> bool)
    ensures
        with_values(a, pass) matches Some(b) ==> is_part_of(b, a) && forall|i: int|
            0 <= i < b.values.len() ==> pass(#[trigger] b.values[i]),
{
    let values = a.values.filter(pass);
    assert forall|i: int| 0 <= i < values.len() implies a.values.contains(#[trigger] values[i])
        && pass(values[i]) by {
        a.values.lemma_filter_pred(pass, i);
        lemma_filter_from(a.values, pass, i);
    }
}

proof fn lemma_filter_from(s: Seq<Seq<char>>, pass: spec_fn(Seq<char>) -> bool, i: int)
    requires
        0 <= i < s.filter(pass).len(),
    ensures
        s.contains(s.filter(pass)[i]),
    decreases s.len(),
{
    reveal(Seq::filter);
    if s.len() > 0 {
        let sub = s.drop_last().filter(pass);
        if i < sub.len() {
            lemma_filter_from(s.drop_last(), pass, i);
            assert(s.filter(pass)[i] == sub[i]);
            let k = choose|k: int| 0 <= k < s.drop_last().len() && s.drop_last()[k] == sub[i];
            assert(s[k] == sub[i]);
        } else {
            assert(s[s.len() - 1] == s.filter(pass)[i]);
        }
    }
}

proof fn lemma_part_of_part(a: AttributeView, b: AttributeView, c: AttributeView)
    requires
        is_part_of(a, b),
        is_part_of(b, c),
    ensures
        is_part_of(a, c),
{
    assert forall|i: int| 0 <= i < a.values.len() implies c.values.contains(
        #[trigger] a.values[i],
    ) by {
        assert(b.values.contains(a.values[i]));
        let k = choose|k: int| 0 <= k < b.values.len() && b.values[k] == a.values[i];
        assert(c.values.contains(b.values[k]));
    }
}

/// What is released of an attribute is part of it. Where there are entity
/// category policies, one of them lets it go, or it is the subject identifier
/// that is needed; where the service provider asks for attributes, it asks for
/// this one; where there are restrictions, one is for it.
pub proof fn law_release_is_allowed(
    entry: PolicyEntry,
    categories: Seq<Seq<char>>,
    rs: Seq<RequestedAttributeView>,
    req: SubjectIdReq,
    a: AttributeView,
)
    ensures
        released_of(entry, categories, rs, req, a) matches Some(out) ==> {
            &&& is_part_of(out, a)
            &&& entry.entity_categories@.len() > 0 ==> req.needs(a.name) || allowed_by(
                entry.entity_categories@,
                categories,
                a.name,
                a.friendly_name,
            )
            &&& rs.len() > 0 ==> asked_for(rs, a.name)
            &&& entry.attribute_restrictions matches Some(restrictions) ==> unrestricted(
                restrictions@,
                a,
            )
        },
{
    assert(is_part_of(a, a)) by {
        assert forall|i: int| 0 <= i < a.values.len() implies a.values.contains(
            #[trigger] a.values[i],
        ) by {}
    }
    if let Some(b) = by_category(entry, categories, req, a) {
        lemma_with_values(b, |v: Seq<char>| asked_value(rs, b.name, v));
        if let Some(c) = by_request(rs, b) {
            assert(is_part_of(c, a));
            if let Some(restrictions) = entry.attribute_restrictions {
                lemma_with_values(c, |v: Seq<char>| unrestricted_value(restrictions@, c, v));
                if let Some(d) = by_restriction(entry, c) {
                    assert(is_part_of(c, c)) by {
                        assert forall|i: int| 0 <= i < c.values.len() implies c.values.contains(
                            #[trigger] c.values[i],
                        ) by {}
                    }
                    lemma_part_of_part(d, c, a);
                    let k = choose|k: int|
                        0 <= k < restrictions@.len() && restricts(#[trigger] restrictions@[k], c);
                    assert(restricts(restrictions@[k], a));
                }
            }
        }
    }
}

/// Nothing is made up: every attribute that is released is part of one that
/// is held.
pub proof fn law_release_makes_nothing_up(
    entry: PolicyEntry,
    categories: Seq<Seq<char>>,
    rs: Seq<RequestedAttributeView>,
    req: SubjectIdReq,
    attributes: Seq<AttributeView>,
    i: int,
)
    requires
        0 <= i < released_all(entry, categories, rs, req, attributes).len(),
    ensures
        exists|k: int|
            0 <= k < attributes.len() && is_part_of(
                released_all(entry, categories, rs, req, attributes)[i],
                #[trigger] attributes[k],
            ),
    decreases attributes.len(),
{
    if attributes.len() > 0 {
        let front = attributes.drop_last();
        let before = released_all(entry, categories, rs, req, front);
        if i < before.len() {
            law_release_makes_nothing_up(entry, categories, rs, req, front, i);
            let k = choose|k: int| 0 <= k < front.len() && is_part_of(before[i], #[trigger] front[k]);
            assert(attributes[k] == front[k]);
        } else {
            law_release_is_allowed(entry, categories, rs, req, attributes.last());
            assert(attributes[attributes.len() - 1] == attributes.last());
        }
    }
}

/// Where a missing required attribute fails, what is released has everything
/// that is required.
pub proof fn law_required_is_there(
    entry: PolicyEntry,
    attributes: Seq<AttributeView>,
    categories: Seq<Seq<char>>,
    required: Seq<RequestedAttributeView>,
    optional: Seq<RequestedAttributeView>,
    req: SubjectIdReq,
    k: int,
)
    requires
        entry.fail_on_missing_requested,
        0 <= k < required.len(),
    ensures
        filtered(entry, attributes, categories, required, optional, req) matches Ok(out)
            ==> satisfies(out, required[k]),
{
    let out = released_all(entry, categories, required + optional, req, attributes);
    if missing(out, required) is None {
        lemma_none_missing(out, required, k);
    }
}

proof fn lemma_none_missing(
    attributes: Seq<AttributeView>,
    required: Seq<RequestedAttributeView>,
    k: int,
)
    requires
        missing(attributes, required) is None,
        0 <= k < required.len(),
    ensures
        satisfies(attributes, required[k]),
    decreases required.len(),
{
    if k > 0 {
        lemma_none_missing(attributes, required.skip(1), k - 1);
        assert(required.skip(1)[k - 1] == required[k]);
    }
}

} // verus!
