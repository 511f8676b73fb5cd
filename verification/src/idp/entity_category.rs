//! Entity categories: attributes that are released to every service provider
//! of a kind.

use crate::text::{contains_text, opt_text, same, texts};
use vstd::prelude::*;

verus! {

/// The metadata attribute by which a service provider says which subject
/// identifier it needs.
pub const SUBJECT_ID_REQ_ATTR: &'static str = "urn:oasis:names:tc:SAML:profiles:subject-id:req";

/// The general-purpose subject identifier attribute.
pub const SUBJECT_ID_ATTR: &'static str = "urn:oasis:names:tc:SAML:attribute:subject-id";

/// The pairwise subject identifier attribute.
pub const PAIRWISE_ID_ATTR: &'static str = "urn:oasis:names:tc:SAML:attribute:pairwise-id";

/// The REFEDS Research and Scholarship entity category.
pub const REFEDS_RESEARCH_AND_SCHOLARSHIP: &'static str =
    "http://refeds.org/category/research-and-scholarship";

/// Which subject identifier a service provider needs.
#[derive(Debug, Clone, Copy, PartialEq, Eq, Structural)]
pub enum SubjectIdReq {
    /// None, or it does not say.
    NotRequired,
    /// The general-purpose one.
    SubjectId,
    /// The pairwise one.
    PairwiseId,
    /// Either.
    Any,
}

impl Default for SubjectIdReq {
    fn default() -> (result: Self)
        ensures
            result == SubjectIdReq::NotRequired,
    {
        SubjectIdReq::NotRequired
    }
}

impl SubjectIdReq {
    /// What the values of the metadata attribute say: the first one counts.
    pub open spec fn of_values(values: Seq<Seq<char>>) -> SubjectIdReq {
        if values.len() == 0 {
            SubjectIdReq::NotRequired
        } else if values[0] == "subject-id"@ {
            SubjectIdReq::SubjectId
        } else if values[0] == "pairwise-id"@ {
            SubjectIdReq::PairwiseId
        } else if values[0] == "any"@ {
            SubjectIdReq::Any
        } else {
            SubjectIdReq::NotRequired
        }
    }

    /// Read the values of the metadata attribute.
    pub fn from_metadata_values(values: &[String]) -> (result: SubjectIdReq)
        ensures
            result == SubjectIdReq::of_values(texts(values@)),
    {
        if values.len() == 0 {
            return SubjectIdReq::NotRequired;
        }
        assert(texts(values@)[0] == values@[0]@);
        let v = values[0].as_str();
        if same(v, "subject-id") {
            SubjectIdReq::SubjectId
        } else if same(v, "pairwise-id") {
            SubjectIdReq::PairwiseId
        } else if same(v, "any") {
            SubjectIdReq::Any
        } else {
            SubjectIdReq::NotRequired
        }
    }

    /// Whether an attribute is the subject identifier that is needed. Where
    /// either will do, it is the pairwise one.
    pub open spec fn needs(self, name: Seq<char>) -> bool {
        match self {
            SubjectIdReq::NotRequired => false,
            SubjectIdReq::SubjectId => name == SUBJECT_ID_ATTR@,
            SubjectIdReq::PairwiseId => name == PAIRWISE_ID_ATTR@,
            SubjectIdReq::Any => name == PAIRWISE_ID_ATTR@,
        }
    }

    /// Whether an attribute is the subject identifier that is needed.
    pub fn is_needed(&self, name: &str) -> (result: bool)
        ensures
            result == self.needs(name@),
    {
        match self {
            SubjectIdReq::NotRequired => false,
            SubjectIdReq::SubjectId => same(name, SUBJECT_ID_ATTR),
            SubjectIdReq::PairwiseId => same(name, PAIRWISE_ID_ATTR),
            SubjectIdReq::Any => same(name, PAIRWISE_ID_ATTR),
        }
    }
}

/// Whether an attribute goes by a name: its own, or its friendly one.
pub open spec fn goes_by(
    name: Seq<char>,
    friendly_name: Option<Seq<char>>,
    wanted: Seq<char>,
) -> bool {
    name == wanted || friendly_name == Some(wanted)
}

/// Attributes that are released to service providers of one entity category.
#[derive(Debug, Clone)]
pub struct EntityCategoryPolicy {
    /// The entity category.
    pub category: String,
    /// The attributes, by name or friendly name.
    pub attributes: Vec<String>,
}

/// Whether a list of names has one that an attribute goes by.
pub open spec fn named_in(
    names: Seq<Seq<char>>,
    name: Seq<char>,
    friendly_name: Option<Seq<char>>,
) -> bool {
    exists|i: int| 0 <= i < names.len() && goes_by(name, friendly_name, #[trigger] names[i])
}

/// Whether a list of names has one that an attribute goes by.
pub fn is_named_in(names: &[String], name: &str, friendly_name: &Option<String>) -> (result: bool)
    ensures
        result == named_in(texts(names@), name@, opt_text(*friendly_name)),
{
    let mut i: usize = 0;
    while i < names.len()
        invariant
            i <= names@.len(),
            forall|k: int|
                0 <= k < i ==> !goes_by(
                    name@,
                    opt_text(*friendly_name),
                    #[trigger] texts(names@)[k],
                ),
        decreases names@.len() - i,
    {
        let wanted = names[i].as_str();
        assert(texts(names@)[i as int] == wanted@);
        let friendly = match friendly_name {
            Some(f) => same(f.as_str(), wanted),
            None => false,
        };
        if same(name, wanted) || friendly {
            return true;
        }
        i += 1;
    }
    false
}

impl EntityCategoryPolicy {
    /// Whether the policy lets an attribute go to a service provider with
    /// these categories.
    pub open spec fn allows(
        self,
        categories: Seq<Seq<char>>,
        name: Seq<char>,
        friendly_name: Option<Seq<char>>,
    ) -> bool {
        categories.contains(self.category@) && named_in(
            texts(self.attributes@),
            name,
            friendly_name,
        )
    }
}

/// Whether one of some policies lets an attribute go.
pub open spec fn allowed_by(
    policies: Seq<EntityCategoryPolicy>,
    categories: Seq<Seq<char>>,
    name: Seq<char>,
    friendly_name: Option<Seq<char>>,
) -> bool {
    exists|i: int|
        0 <= i < policies.len() && (#[trigger] policies[i]).allows(categories, name, friendly_name)
}

/// Whether one of some policies lets an attribute go.
pub fn is_allowed_by(
    policies: &[EntityCategoryPolicy],
    categories: &[String],
    name: &str,
    friendly_name: &Option<String>,
) -> (result: bool)
    ensures
        result == allowed_by(policies@, texts(categories@), name@, opt_text(*friendly_name)),
{
    let mut i: usize = 0;
    while i < policies.len()
        invariant
            i <= policies@.len(),
            forall|k: int|
                0 <= k < i ==> !(#[trigger] policies@[k]).allows(
                    texts(categories@),
                    name@,
                    opt_text(*friendly_name),
                ),
        decreases policies@.len() - i,
    {
        let p = &policies[i];
        if contains_text(categories, p.category.as_str()) && is_named_in(
            p.attributes.as_slice(),
            name,
            friendly_name,
        ) {
            assert(policies@[i as int].allows(texts(categories@), name@, opt_text(*friendly_name)));
            return true;
        }
        i += 1;
    }
    false
}

/// The REFEDS Research and Scholarship bundle, by friendly names.
pub fn refeds() -> (result: EntityCategoryPolicy)
    ensures
        result.category@ == REFEDS_RESEARCH_AND_SCHOLARSHIP@,
        texts(result.attributes@) == seq![
            "eduPersonTargetedID"@,
            "eduPersonPrincipalName"@,
            "eduPersonUniqueID"@,
            "mail"@,
            "displayName"@,
            "givenName"@,
            "sn"@,
            "eduPersonScopedAffiliation"@,
        ],
{
    let mut attributes: Vec<String> = Vec::new();
    attributes.push("eduPersonTargetedID".to_owned());
    attributes.push("eduPersonPrincipalName".to_owned());
    attributes.push("eduPersonUniqueID".to_owned());
    attributes.push("mail".to_owned());
    attributes.push("displayName".to_owned());
    attributes.push("givenName".to_owned());
    attributes.push("sn".to_owned());
    attributes.push("eduPersonScopedAffiliation".to_owned());
    EntityCategoryPolicy { category: REFEDS_RESEARCH_AND_SCHOLARSHIP.to_owned(), attributes }
}

} // verus!
