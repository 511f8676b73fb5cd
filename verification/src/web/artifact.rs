//! Artifact resolution: who may resolve an artifact, and what is answered.

use super::error::{refuse, refuse_naming, SamlActixError};
use super::signature::{
    check_view, verify_sp_message_signature, xml_fault, XmlSignatures,
};
use crate::saml::metadata::SpSsoDescriptor;
use crate::text::{concat, debug_text, quoted};
use vstd::prelude::*;

verus! {

/// A `<samlp:ArtifactResolve>`.
#[derive(Debug)]
pub struct ArtifactResolve {
    /// The `ID`.
    pub id: String,
    /// The issuer.
    pub issuer: Option<String>,
    /// The artifact.
    pub artifact: String,
}

/// Why an artifact resolution is refused, if it is. It must name an issuer that
/// is trusted, and be signed.
pub open spec fn resolve_fault(resolve: ArtifactResolve, xml: XmlSignatures, trusted: bool) -> Option<
    Seq<char>,
> {
    match resolve.issuer {
        None => Some("ArtifactResolve has no Issuer; refusing resolution"@),
        Some(issuer) => if !trusted {
            Some(
                "ArtifactResolve issuer "@ + debug_text(issuer@)
                    + " is not a trusted SP; refusing resolution"@,
            )
        } else {
            xml_fault(xml, resolve.id@, "ArtifactResolve"@)
        },
    }
}

/// Authorize an artifact resolution before the artifact is used up. `sp` is the
/// metadata that is trusted for its issuer.
pub fn authorize_artifact_resolve(
    resolve: &ArtifactResolve,
    xml: &XmlSignatures,
    sp: Option<&SpSsoDescriptor>,
) -> (result: Result<(), SamlActixError>)
    ensures
        check_view(result) == super::signature::passes_unless(
            resolve_fault(*resolve, *xml, sp is Some),
        ),
{
    let issuer = match &resolve.issuer {
        Some(i) => i.as_str(),
        None => {
            return Err(refuse("ArtifactResolve has no Issuer; refusing resolution".to_owned()));
        },
    };
    if sp.is_none() {
        return Err(
            refuse_naming(
                "ArtifactResolve issuer ",
                quoted(issuer).as_str(),
                " is not a trusted SP; refusing resolution",
            ),
        );
    }
    verify_sp_message_signature(xml, resolve.id.as_str(), "ArtifactResolve")
}

/// What looking an artifact up came to.
#[derive(Debug)]
pub enum ArtifactLookup {
    /// There is no artifact store.
    NotConfigured,
    /// The store failed.
    Failed(String),
    /// The artifact is unknown, or was used before.
    NotFound,
    /// The message that the artifact stands for.
    Found(String),
}

/// What an artifact resolution is answered: the message, or an error.
pub fn artifact_answer(lookup: ArtifactLookup) -> (result: Result<String, String>)
    ensures
        match lookup {
            ArtifactLookup::Found(xml) => result == Ok::<String, String>(xml),
            ArtifactLookup::NotFound => result matches Err(m) && m@
                == "artifact not found or already consumed"@,
            ArtifactLookup::Failed(e) => result matches Err(m) && m@ == "artifact store error: "@
                + e@,
            ArtifactLookup::NotConfigured => result matches Err(m) && m@
                == "artifact resolution not configured"@,
        },
{
    match lookup {
        ArtifactLookup::Found(xml) => Ok(xml),
        ArtifactLookup::NotFound => Err("artifact not found or already consumed".to_owned()),
        ArtifactLookup::Failed(e) => Err(concat("artifact store error: ", e.as_str())),
        ArtifactLookup::NotConfigured => Err("artifact resolution not configured".to_owned()),
    }
}

} // verus!
