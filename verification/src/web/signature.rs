//! Whether a message is authenticated by the signatures on it.
//!
//! Verifying a signature is the work of a crypto library. What it found is
//! taken here as plain values, and decided upon.

use super::error::{refuse, refused, SamlActixError, SamlActixErrorView};
use crate::text::{concat, same, texts};
use vstd::prelude::*;
use vstd::string::StringExecFns;

verus! {

/// What verifying one XML signature found.
#[derive(Debug)]
pub enum VerifyResult {
    /// The signature is valid.
    Valid {
        /// The URIs of what it covers; the empty one is the whole document.
        references: Vec<String>,
    },
    /// The signature is not valid.
    Invalid {
        /// Why.
        reason: String,
    },
}

/// What verifying the XML signatures of a message found, with the keys of the
/// service provider that it claims to come from.
#[derive(Debug)]
pub enum XmlSignatures {
    /// The service provider has no usable key.
    NoKey,
    /// Verifying could not be completed.
    Failed(String),
    /// What was found of each signature, in the order of the document.
    Checked(Vec<VerifyResult>),
}

/// What verifying the signature of an HTTP-Redirect query found.
#[derive(Debug)]
pub enum RedirectSignature {
    /// The service provider has no usable key.
    NoKey,
    /// Verifying could not be completed.
    Failed(String),
    /// Whether the signature is valid.
    Checked(bool),
}

/// Whether a reference covers the message with an identifier: the message
/// itself, or the whole document.
pub open spec fn covers(uri: Seq<char>, id: Seq<char>) -> bool {
    uri.len() == 0 || uri == "#"@ + id
}

/// Whether one of some references covers the message.
pub open spec fn is_bound(references: Seq<Seq<char>>, id: Seq<char>) -> bool {
    exists|i: int| 0 <= i < references.len() && covers(#[trigger] references[i], id)
}

/// Whether one of some references covers the message.
fn has_bound_reference(references: &[String], id: &str) -> (result: bool)
    ensures
        result == is_bound(texts(references@), id@),
{
    let own = concat("#", id);
    let mut i: usize = 0;
    while i < references.len()
        invariant
            i <= references@.len(),
            own@ == "#"@ + id@,
            forall|k: int| 0 <= k < i ==> !covers(#[trigger] texts(references@)[k], id@),
        decreases references@.len() - i,
    {
        assert(texts(references@)[i as int] == references@[i as int]@);
        if references[i].as_str().is_empty() || same(references[i].as_str(), own.as_str()) {
            return true;
        }
        i += 1;
    }
    false
}

/// What is wrong with the signatures of a message: the first that is not valid
/// or does not cover the message.
pub open spec fn first_fault(
    results: Seq<VerifyResult>,
    id: Seq<char>,
    what: Seq<char>,
) -> Option<Seq<char>>
    decreases results.len(),
{
    if results.len() == 0 {
        None
    } else {
        match results[0] {
            VerifyResult::Valid { references } => if is_bound(texts(references@), id) {
                first_fault(results.skip(1), id, what)
            } else {
                Some(
                    what + " signature did not reference the message (XML Signature Wrapping)"@,
                )
            },
            VerifyResult::Invalid { reason } => Some(what + " signature invalid: "@ + reason@),
        }
    }
}

/// Why the XML signatures of a message do not authenticate it, if they do not:
/// there has to be one, and every one has to be valid and cover the message.
pub open spec fn xml_fault(found: XmlSignatures, id: Seq<char>, what: Seq<char>) -> Option<
    Seq<char>,
> {
    match found {
        XmlSignatures::NoKey => Some(
            what
                + " issuer has no usable signing certificate in its metadata; refusing unauthenticated request"@,
        ),
        XmlSignatures::Failed(e) => Some(what + " signature verification failed: "@ + e@),
        XmlSignatures::Checked(results) => if results@.len() == 0 {
            Some(what + " contains no XML signature"@)
        } else {
            first_fault(results@, id, what)
        },
    }
}

/// What the outcome of a check says.
pub open spec fn check_view(r: Result<(), SamlActixError>) -> Result<(), SamlActixErrorView> {
    match r {
        Ok(()) => Ok(()),
        Err(e) => Err(e@),
    }
}

/// A check that fails for a reason, or passes.
pub open spec fn passes_unless(fault: Option<Seq<char>>) -> Result<(), SamlActixErrorView> {
    match fault {
        Some(reason) => Err(refused(reason)),
        None => Ok(()),
    }
}

/// Check that the XML signatures of a message authenticate it.
///
/// Every signature has to be valid, not only the first, and every one has to
/// cover the message itself, so that a valid signature over something else in
/// the document does not pass for it.
pub fn verify_sp_message_signature(found: &XmlSignatures, expected_id: &str, what: &str) -> (result:
    Result<(), SamlActixError>)
    ensures
        check_view(result) == passes_unless(xml_fault(*found, expected_id@, what@)),
{
    match found {
        XmlSignatures::NoKey => Err(
            refuse(
                concat(
                    what,
                    " issuer has no usable signing certificate in its metadata; refusing unauthenticated request",
                ),
            ),
        ),
        XmlSignatures::Failed(e) => {
            let start = concat(what, " signature verification failed: ");
            Err(refuse(concat(start.as_str(), e.as_str())))
        },
        XmlSignatures::Checked(results) => {
            if results.len() == 0 {
                return Err(refuse(concat(what, " contains no XML signature")));
            }
            check_results(results.as_slice(), expected_id, what)
        },
    }
}

fn check_results(results: &[VerifyResult], expected_id: &str, what: &str) -> (result: Result<
    (),
    SamlActixError,
>)
    ensures
        check_view(result) == passes_unless(first_fault(results@, expected_id@, what@)),
{
    let ghost all = results@;
    let mut i: usize = 0;
    assert(all.skip(0) == all);
    while i < results.len()
        invariant
            i <= all.len(),
            all == results@,
            first_fault(all, expected_id@, what@) == first_fault(
                all.skip(i as int),
                expected_id@,
                what@,
            ),
        decreases all.len() - i,
    {
        assert(all.skip(i as int)[0] == all[i as int]);
        assert(all.skip(i as int).skip(1) == all.skip(i + 1));
        match &results[i] {
            VerifyResult::Valid { references } => {
                if !has_bound_reference(references.as_slice(), expected_id) {
                    return Err(
                        refuse(
                            concat(
                                what,
                                " signature did not reference the message (XML Signature Wrapping)",
                            ),
                        ),
                    );
                }
            },
            VerifyResult::Invalid { reason } => {
                let start = concat(what, " signature invalid: ");
                return Err(refuse(concat(start.as_str(), reason.as_str())));
            },
        }
        i += 1;
    }
    Ok(())
}

/// Why the signature of a redirect query does not authenticate a message, if
/// it does not.
pub open spec fn redirect_fault(found: RedirectSignature, what: Seq<char>) -> Option<Seq<char>> {
    match found {
        RedirectSignature::NoKey => Some(
            what + " issuer has no usable signing certificate in metadata"@,
        ),
        RedirectSignature::Failed(e) => Some(
            what + " redirect signature verification failed: "@ + e@,
        ),
        RedirectSignature::Checked(valid) => if valid {
            None
        } else {
            Some(what + " redirect signature is invalid"@)
        },
    }
}

/// Whether a message is authenticated, where every signature on it passes.
/// The signature of the query comes first.
pub open spec fn authentication(
    redirect: Option<RedirectSignature>,
    xml: XmlSignatures,
    id: Seq<char>,
    has_xml_signature: bool,
    what: Seq<char>,
) -> Result<bool, SamlActixErrorView> {
    if redirect is Some && redirect_fault(redirect->0, what) is Some {
        Err(refused(redirect_fault(redirect->0, what)->0))
    } else if has_xml_signature && xml_fault(xml, id, what) is Some {
        Err(refused(xml_fault(xml, id, what)->0))
    } else {
        Ok(redirect is Some || has_xml_signature)
    }
}

/// What the outcome of authenticating says.
pub open spec fn authentication_view(r: Result<bool, SamlActixError>) -> Result<
    bool,
    SamlActixErrorView,
> {
    match r {
        Ok(b) => Ok(b),
        Err(e) => Err(e@),
    }
}

/// What an optional borrowed finding is.
pub open spec fn opt_redirect(r: Option<&RedirectSignature>) -> Option<RedirectSignature> {
    match r {
        Some(x) => Some(*x),
        None => None,
    }
}

/// Check every signature on a request, and say whether it is authenticated.
pub fn verify_sp_request_signatures(
    redirect: Option<&RedirectSignature>,
    xml: &XmlSignatures,
    request_id: &str,
    has_xml_signature: bool,
    what: &str,
) -> (result: Result<bool, SamlActixError>)
    ensures
        authentication_view(result) == authentication(
            opt_redirect(redirect),
            *xml,
            request_id@,
            has_xml_signature,
            what@,
        ),
{
    let mut verified = false;
    if let Some(signature) = redirect {
        match signature {
            RedirectSignature::NoKey => {
                return Err(
                    refuse(concat(what, " issuer has no usable signing certificate in metadata")),
                );
            },
            RedirectSignature::Failed(e) => {
                let start = concat(what, " redirect signature verification failed: ");
                return Err(refuse(concat(start.as_str(), e.as_str())));
            },
            RedirectSignature::Checked(valid) => {
                if !*valid {
                    return Err(refuse(concat(what, " redirect signature is invalid")));
                }
            },
        }
        verified = true;
    }
    if has_xml_signature {
        match verify_sp_message_signature(xml, request_id, what) {
            Ok(()) => {
                verified = true;
            },
            Err(e) => {
                return Err(e);
            },
        }
    }
    Ok(verified)
}

/// Whether every signature of a list is valid and covers the message.
pub open spec fn all_valid_and_bound(results: Seq<VerifyResult>, id: Seq<char>) -> bool {
    forall|i: int|
        0 <= i < results.len() ==> (#[trigger] results[i] matches VerifyResult::Valid { references }
            && is_bound(texts(references@), id))
}

proof fn lemma_no_fault(results: Seq<VerifyResult>, id: Seq<char>, what: Seq<char>)
    ensures
        first_fault(results, id, what) is None <==> all_valid_and_bound(results, id),
    decreases results.len(),
{
    if results.len() > 0 {
        lemma_no_fault(results.skip(1), id, what);
        if first_fault(results, id, what) is None {
            assert forall|i: int| 0 <= i < results.len() implies (
            #[trigger] results[i] matches VerifyResult::Valid { references } && is_bound(
                texts(references@),
                id,
            )) by {
                if i > 0 {
                    assert(results.skip(1)[i - 1] == results[i]);
                }
            }
        }
        if all_valid_and_bound(results, id) {
            assert(results[0] is Valid);
            assert forall|i: int| 0 <= i < results.skip(1).len() implies (
            #[trigger] results.skip(1)[i] matches VerifyResult::Valid { references } && is_bound(
                texts(references@),
                id,
            )) by {
                assert(results[i + 1] == results.skip(1)[i]);
            }
        }
    }
}

/// One valid signature does not stand in for another: a message is
/// authenticated only if it has a signature, the signature of the query is
/// valid where there is one, and all XML signatures are valid and cover the
/// message where it has any.
pub proof fn law_every_signature_counts(
    redirect: Option<RedirectSignature>,
    xml: XmlSignatures,
    id: Seq<char>,
    has_xml_signature: bool,
    what: Seq<char>,
)
    ensures
        authentication(redirect, xml, id, has_xml_signature, what) == Ok::<
            bool,
            SamlActixErrorView,
        >(true) <==> {
            &&& redirect is Some || has_xml_signature
            &&& redirect is Some ==> redirect->0 == RedirectSignature::Checked(true)
            &&& has_xml_signature ==> (xml matches XmlSignatures::Checked(results) && results@.len()
                > 0 && all_valid_and_bound(results@, id))
        },
{
    if let XmlSignatures::Checked(results) = xml {
        lemma_no_fault(results@, id, what);
    }
}

} // verus!
