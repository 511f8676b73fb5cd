//! Signing what the endpoints send.

use super::config::IdpConfig;
use super::error::{SamlActixError, SamlActixErrorView};
use crate::saml::error::ProfileErrorView;
use crate::saml::signing::{self, may_be_signed, signed_text, SamlSigner};
use crate::text::{concat, opt_str, opt_text, to_chars};
use crate::xml::{
    closes_at, find, find_tag_end, is_first_at, is_tag_end, is_unclosed, lemma_first_is_only,
    splice, spliced, stands_nowhere,
};
use vstd::prelude::*;

verus! {

/// The signer of an identity provider, and its certificate.
pub struct IdpSigningContext<F: Fn(&str) -> Result<String, String>> {
    /// The signer.
    pub signer: SamlSigner<F>,
    /// The base64 DER certificate of the key that signs.
    pub cert_b64: String,
}

impl<F: Fn(&str) -> Result<String, String>> IdpSigningContext<F> {
    /// A signing context for a signer.
    pub fn new(signer: SamlSigner<F>, cert_b64: &str) -> (result: Self)
        ensures
            result.signer == signer,
            result.cert_b64@ == cert_b64@,
    {
        IdpSigningContext { signer, cert_b64: cert_b64.to_owned() }
    }

    /// A signing context for a key that stays on a token: `sign` has the token
    /// sign, with the algorithm `signature_method`.
    pub fn from_hsm(sign: F, signature_method: &str, cert_b64: &str) -> (result: Self)
        requires
            forall|xml: &str| #[trigger] call_requires(sign, (xml,)),
        ensures
            result.signer.method() == signature_method@,
            result.cert_b64@ == cert_b64@,
            forall|xml: Seq<char>, r: Result<String, String>| #[trigger]
                result.signer.may_sign(xml, r) == exists|t: &str|
                    t@ == xml && #[trigger] call_ensures(sign, (t,), r),
    {
        IdpSigningContext {
            signer: SamlSigner::new(sign, signature_method),
            cert_b64: cert_b64.to_owned(),
        }
    }
}

/// The certificate that metadata publishes: that of the key that signs, so that
/// the two agree, else the configured one.
pub fn metadata_signing_cert_b64<'a, F: Fn(&str) -> Result<String, String>>(
    config: &'a IdpConfig,
    signing_ctx: Option<&'a IdpSigningContext<F>>,
) -> (result: Option<&'a str>)
    ensures
        opt_str(result) == match signing_ctx {
            Some(ctx) => Some(ctx.cert_b64@),
            None => opt_text(config.signing_cert_b64),
        },
{
    match signing_ctx {
        Some(ctx) => Some(ctx.cert_b64.as_str()),
        None => match &config.signing_cert_b64 {
            Some(c) => Some(c.as_str()),
            None => None,
        },
    }
}

/// Whether an element begins at a place: the first one with attributes, else
/// the first one without.
pub open spec fn begins_at(xml: Seq<char>, name: Seq<char>, at: int) -> bool {
    let with_attributes = "<"@ + name + " "@;
    ||| is_first_at(xml, with_attributes, 0, at)
    ||| stands_nowhere(xml, with_attributes, 0) && is_first_at(xml, "<"@ + name + ">"@, 0, at)
}

/// Whether there is no such element.
pub open spec fn begins_nowhere(xml: Seq<char>, name: Seq<char>) -> bool {
    stands_nowhere(xml, "<"@ + name + " "@, 0) && stands_nowhere(xml, "<"@ + name + ">"@, 0)
}

/// Whether the document with `piece` as the first child of an element is
/// `result`: right after the tag that opens it. A `>` within an attribute value
/// does not end the tag.
pub open spec fn is_with_first_child(
    xml: Seq<char>,
    name: Seq<char>,
    piece: Seq<char>,
    result: Seq<char>,
) -> bool {
    exists|start: int, close: int|
        {
            &&& #[trigger] begins_at(xml, name, start)
            &&& #[trigger] is_tag_end(xml, start, close)
            &&& result == spliced(xml, close + 1, piece)
        }
}

/// There is only one such document.
pub proof fn law_first_child_is_determined(
    xml: Seq<char>,
    name: Seq<char>,
    piece: Seq<char>,
    a: Seq<char>,
    b: Seq<char>,
)
    requires
        is_with_first_child(xml, name, piece, a),
        is_with_first_child(xml, name, piece, b),
    ensures
        a == b,
{
    let (s, c) = choose|s: int, c: int|
        {
            &&& #[trigger] begins_at(xml, name, s)
            &&& #[trigger] is_tag_end(xml, s, c)
            &&& a == spliced(xml, c + 1, piece)
        };
    let (s2, c2) = choose|s: int, c: int|
        {
            &&& #[trigger] begins_at(xml, name, s)
            &&& #[trigger] is_tag_end(xml, s, c)
            &&& b == spliced(xml, c + 1, piece)
        };
    let wide = "<"@ + name + " "@;
    let bare = "<"@ + name + ">"@;
    if is_first_at(xml, wide, 0, s) && is_first_at(xml, wide, 0, s2) {
        lemma_first_is_only(xml, wide, 0, s, s2);
    } else {
        assert(crate::xml::stands_at(xml, wide, s) ==> !stands_nowhere(xml, wide, 0));
        assert(crate::xml::stands_at(xml, wide, s2) ==> !stands_nowhere(xml, wide, 0));
        lemma_first_is_only(xml, bare, 0, s, s2);
    }
    assert(closes_at(xml, s, c) && closes_at(xml, s, c2));
}

/// Put `sig_template` in as the first child of an element, right after the tag
/// that opens it. This is where the signature of metadata stands.
pub fn insert_signature_after_element(xml: &str, element_name: &str, sig_template: &str) -> (result:
    Result<String, SamlActixError>)
    ensures
        match result {
            Ok(s) => is_with_first_child(xml@, element_name@, sig_template@, s@),
            Err(e) => if begins_nowhere(xml@, element_name@) {
                e@ == SamlActixErrorView::Internal(
                    "cannot find <"@ + element_name@ + "> in XML"@,
                )
            } else {
                &&& exists|start: int|
                    begins_at(xml@, element_name@, start) && is_unclosed(xml@, start)
                &&& e@ == SamlActixErrorView::Internal("malformed <"@ + element_name@ + "> tag"@)
            },
        },
{
    let chars = to_chars(xml);
    let open = concat("<", element_name);
    let with_space = to_chars(concat(open.as_str(), " ").as_str());
    let with_close = to_chars(concat(open.as_str(), ">").as_str());
    let start: usize = match find(chars.as_slice(), with_space.as_slice(), 0) {
        Some(p) => p,
        None => match find(chars.as_slice(), with_close.as_slice(), 0) {
            Some(p) => p,
            None => {
                let m = concat("cannot find <", element_name);
                return Err(SamlActixError::Internal(concat(m.as_str(), "> in XML")));
            },
        },
    };
    assert(begins_at(xml@, element_name@, start as int));
    proof {
        if is_first_at(xml@, "<"@ + element_name@ + " "@, 0, start as int) {
            assert(crate::xml::stands_at(xml@, "<"@ + element_name@ + " "@, start as int));
        } else {
            assert(crate::xml::stands_at(xml@, "<"@ + element_name@ + ">"@, start as int));
        }
        assert(!begins_nowhere(xml@, element_name@));
    }
    match find_tag_end(chars.as_slice(), start) {
        Some(close) => {
            assert(closes_at(xml@, start as int, close as int));
            let n: usize = chars.len();
            assert(close < n);
            Ok(splice(chars.as_slice(), close + 1, sig_template))
        },
        None => {
            let m = concat("malformed <", element_name);
            Err(SamlActixError::Internal(concat(m.as_str(), "> tag")))
        },
    }
}

/// The outcome of signing, where a fault is one of the endpoint.
pub open spec fn as_internal(r: Result<Seq<char>, ProfileErrorView>) -> Result<
    Seq<char>,
    SamlActixErrorView,
> {
    match r {
        Ok(s) => Ok(s),
        Err(e) => Err(
            SamlActixErrorView::Internal("response/assertion signing failed: "@ + e.message()),
        ),
    }
}

/// What the outcome of signing says.
pub open spec fn web_signed_text(r: Result<String, SamlActixError>) -> Result<
    Seq<char>,
    SamlActixErrorView,
> {
    match r {
        Ok(s) => Ok(s@),
        Err(e) => Err(e@),
    }
}

/// Sign a response: the assertion first, then the response around it.
pub fn sign_response_xml<F: Fn(&str) -> Result<String, String>>(
    response_xml: &str,
    signing_ctx: &IdpSigningContext<F>,
    response_id: &str,
    assertion_id: Option<&str>,
    sign_assertions: bool,
    sign_responses: bool,
) -> (result: Result<String, SamlActixError>)
    ensures
        exists|r: Result<Seq<char>, ProfileErrorView>| #[trigger]
            may_be_signed(
                signing_ctx.signer,
                signing_ctx.cert_b64@,
                response_xml@,
                response_id@,
                opt_str(assertion_id),
                sign_assertions,
                sign_responses,
                r,
            ) && web_signed_text(result) == as_internal(r),
{
    let signed = signing::sign_response_xml(
        response_xml,
        &signing_ctx.signer,
        signing_ctx.cert_b64.as_str(),
        response_id,
        assertion_id,
        sign_assertions,
        sign_responses,
    );
    let ghost shown = signed_text(signed);
    assert(may_be_signed(
        signing_ctx.signer,
        signing_ctx.cert_b64@,
        response_xml@,
        response_id@,
        opt_str(assertion_id),
        sign_assertions,
        sign_responses,
        shown,
    ));
    let result = match signed {
        Ok(s) => Ok(s),
        Err(e) => Err(
            SamlActixError::Internal(concat("response/assertion signing failed: ", e.message())),
        ),
    };
    assert(web_signed_text(result) == as_internal(shown));
    result
}

} // verus!
