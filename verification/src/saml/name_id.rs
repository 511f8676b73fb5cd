//! NameIDs and the policies that request them.

use crate::text::{opt_text, as_opt_str, to_opt_string};
use vstd::prelude::*;

verus! {

/// A `<saml:NameID>`.
#[derive(Debug, PartialEq, Eq)]
pub struct NameId {
    /// The identifier itself.
    pub value: String,
    /// The `Format` attribute.
    pub format: Option<String>,
    /// The `NameQualifier` attribute.
    pub name_qualifier: Option<String>,
    /// The `SPNameQualifier` attribute.
    pub sp_name_qualifier: Option<String>,
    /// The `SPProvidedID` attribute.
    pub sp_provided_id: Option<String>,
}

/// What a [`NameId`] says.
#[verifier::ext_equal]
pub struct NameIdView {
    pub value: Seq<char>,
    pub format: Option<Seq<char>>,
    pub name_qualifier: Option<Seq<char>>,
    pub sp_name_qualifier: Option<Seq<char>>,
    pub sp_provided_id: Option<Seq<char>>,
}

impl View for NameId {
    type V = NameIdView;

    open spec fn view(&self) -> NameIdView {
        NameIdView {
            value: self.value@,
            format: opt_text(self.format),
            name_qualifier: opt_text(self.name_qualifier),
            sp_name_qualifier: opt_text(self.sp_name_qualifier),
            sp_provided_id: opt_text(self.sp_provided_id),
        }
    }
}

impl Clone for NameId {
    fn clone(&self) -> (result: Self)
        ensures
            result@ == self@,
    {
        NameId {
            value: self.value.clone(),
            format: to_opt_string(as_opt_str(&self.format)),
            name_qualifier: to_opt_string(as_opt_str(&self.name_qualifier)),
            sp_name_qualifier: to_opt_string(as_opt_str(&self.sp_name_qualifier)),
            sp_provided_id: to_opt_string(as_opt_str(&self.sp_provided_id)),
        }
    }
}

/// The texts of a list of NameIDs.
pub open spec fn name_id_views(v: Seq<NameId>) -> Seq<NameIdView> {
    Seq::new(v.len(), |i: int| v[i]@)
}

/// A `<samlp:NameIDPolicy>`.
#[derive(Debug, PartialEq, Eq)]
pub struct NameIdPolicy {
    /// The `Format` attribute.
    pub format: Option<String>,
    /// The `SPNameQualifier` attribute.
    pub sp_name_qualifier: Option<String>,
    /// The `AllowCreate` attribute.
    pub allow_create: bool,
}

/// What a [`NameIdPolicy`] says.
#[verifier::ext_equal]
pub struct NameIdPolicyView {
    pub format: Option<Seq<char>>,
    pub sp_name_qualifier: Option<Seq<char>>,
    pub allow_create: bool,
}

impl View for NameIdPolicy {
    type V = NameIdPolicyView;

    open spec fn view(&self) -> NameIdPolicyView {
        NameIdPolicyView {
            format: opt_text(self.format),
            sp_name_qualifier: opt_text(self.sp_name_qualifier),
            allow_create: self.allow_create,
        }
    }
}

impl Clone for NameIdPolicy {
    fn clone(&self) -> (result: Self)
        ensures
            result@ == self@,
    {
        NameIdPolicy {
            format: to_opt_string(as_opt_str(&self.format)),
            sp_name_qualifier: to_opt_string(as_opt_str(&self.sp_name_qualifier)),
            allow_create: self.allow_create,
        }
    }
}

/// What an optional [`NameIdPolicy`] says.
pub open spec fn opt_policy(policy: Option<&NameIdPolicy>) -> Option<NameIdPolicyView> {
    match policy {
        Some(p) => Some(p@),
        None => None,
    }
}

/// The operation a `<samlp:ManageNameIDRequest>` asks for.
#[derive(Debug, Clone, PartialEq, Eq)]
pub enum NewIdOrTerminate {
    /// Use this identifier from now on (`<samlp:NewID>`).
    NewId(String),
    /// As `NewId`, encrypted: the text of the `<samlp:NewEncryptedID>` element.
    NewEncryptedId(String),
    /// Stop using the identifier (`<samlp:Terminate>`).
    Terminate,
}

} // verus!
