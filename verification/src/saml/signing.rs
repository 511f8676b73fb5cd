//! Enveloped signatures: where they go, and what they cover.

use super::error::{ProfileError, ProfileErrorView};
use crate::text::{concat, opt_str, opt_text, to_chars};
use crate::xml::{
    attr, element, find, is_first_at, lemma_first_is_only, make_attr, make_element,
    make_text_element, splice, spliced, stands_nowhere, text_element,
};
use vstd::prelude::*;
use vstd::string::StringExecFns;

verus! {

/// The namespace of XML signatures.
pub const DS_NS: &'static str = "http://www.w3.org/2000/09/xmldsig#";

/// Exclusive canonicalization.
pub const EXC_C14N: &'static str = "http://www.w3.org/2001/10/xml-exc-c14n#";

/// The transform that leaves the signature itself out.
pub const ENVELOPED: &'static str = "http://www.w3.org/2000/09/xmldsig#enveloped-signature";

/// SHA-256 digests.
pub const DIGEST_SHA256: &'static str = "http://www.w3.org/2001/04/xmlenc#sha256";

/// What signs XML: a function from a document with an empty signature to the
/// document with the signature filled in, and the algorithm it uses.
pub struct SamlSigner<F: Fn(&str) -> Result<String, String>> {
    sign: F,
    signature_method: String,
}

impl<F: Fn(&str) -> Result<String, String>> SamlSigner<F> {
    #[verifier::type_invariant]
    spec fn signs_anything(self) -> bool {
        forall|xml: &str| #[trigger] call_requires(self.sign, (xml,))
    }

    /// Whether `result` is one that may come of signing a document.
    pub closed spec fn may_sign(&self, xml: Seq<char>, result: Result<String, String>) -> bool {
        exists|t: &str| t@ == xml && #[trigger] call_ensures(self.sign, (t,), result)
    }

    /// The algorithm that signs.
    pub closed spec fn method(&self) -> Seq<char> {
        self.signature_method@
    }

    /// A signer.
    pub fn new(sign: F, signature_method: &str) -> (result: Self)
        requires
            forall|xml: &str| #[trigger] call_requires(sign, (xml,)),
        ensures
            result.method() == signature_method@,
            forall|xml: Seq<char>, r: Result<String, String>| #[trigger]
                result.may_sign(xml, r) == exists|t: &str|
                    t@ == xml && #[trigger] call_ensures(sign, (t,), r),
    {
        let result = SamlSigner { sign, signature_method: signature_method.to_owned() };
        assert(result.sign == sign);
        assert forall|xml: Seq<char>, r: Result<String, String>| #[trigger]
            result.may_sign(xml, r) == exists|t: &str|
                t@ == xml && #[trigger] call_ensures(sign, (t,), r) by {
            if exists|t: &str| t@ == xml && #[trigger] call_ensures(sign, (t,), r) {
                let t = choose|t: &str| t@ == xml && #[trigger] call_ensures(sign, (t,), r);
                assert(call_ensures(result.sign, (t,), r));
            }
            if result.may_sign(xml, r) {
                let t = choose|t: &str| t@ == xml && #[trigger] call_ensures(result.sign, (t,), r);
                assert(call_ensures(sign, (t,), r));
            }
        }
        result
    }

    /// Sign a document that holds an empty signature.
    pub fn sign_enveloped(&self, xml: &str) -> (result: Result<String, String>)
        ensures
            self.may_sign(xml@, result),
    {
        proof {
            use_type_invariant(self);
        }
        (self.sign)(xml)
    }

    /// The algorithm that signs.
    pub fn signature_method_uri(&self) -> (result: &str)
        ensures
            result@ == self.method(),
    {
        self.signature_method.as_str()
    }
}

/// An element with an algorithm.
pub open spec fn algorithm(name: Seq<char>, uri: Seq<char>) -> Seq<char> {
    element(name, attr("Algorithm"@, uri), Seq::empty())
}

fn make_algorithm(name: &str, uri: &str) -> (result: String)
    ensures
        result@ == algorithm(name@, uri@),
{
    let none = String::new();
    assert(none@ == Seq::<char>::empty());
    make_element(name, make_attr("Algorithm", uri).as_str(), none.as_str())
}

/// The reference of a signature to the element with an identifier.
pub open spec fn reference_xml(id: Seq<char>) -> Seq<char> {
    element(
        "ds:Reference"@,
        attr("URI"@, "#"@ + id),
        element(
            "ds:Transforms"@,
            Seq::empty(),
            algorithm("ds:Transform"@, ENVELOPED@) + algorithm("ds:Transform"@, EXC_C14N@),
        ) + algorithm("ds:DigestMethod"@, DIGEST_SHA256@) + element(
            "ds:DigestValue"@,
            Seq::empty(),
            Seq::empty(),
        ),
    )
}

/// An empty signature over the element with an identifier.
#[verifier::opaque]
pub open spec fn template(id: Seq<char>, cert: Seq<char>, method: Seq<char>) -> Seq<char> {
    element(
        "ds:Signature"@,
        attr("xmlns:ds"@, DS_NS@),
        element(
            "ds:SignedInfo"@,
            Seq::empty(),
            algorithm("ds:CanonicalizationMethod"@, EXC_C14N@) + algorithm(
                "ds:SignatureMethod"@,
                method,
            ) + reference_xml(id),
        ) + element("ds:SignatureValue"@, Seq::empty(), Seq::empty()) + element(
            "ds:KeyInfo"@,
            Seq::empty(),
            element(
                "ds:X509Data"@,
                Seq::empty(),
                text_element("ds:X509Certificate"@, Seq::empty(), cert),
            ),
        ),
    )
}

/// An empty signature over the element with an identifier, with the
/// certificate of the key that signs.
pub fn signature_template(reference_id: &str, cert_b64: &str, signature_method_uri: &str) -> (result:
    String)
    ensures
        result@ == template(reference_id@, cert_b64@, signature_method_uri@),
{
    proof {
        reveal(template);
    }
    let none = String::new();
    assert(none@ == Seq::<char>::empty());
    let mut transforms = make_algorithm("ds:Transform", ENVELOPED);
    transforms.append(make_algorithm("ds:Transform", EXC_C14N).as_str());
    let mut reference = make_element("ds:Transforms", none.as_str(), transforms.as_str());
    reference.append(make_algorithm("ds:DigestMethod", DIGEST_SHA256).as_str());
    reference.append(make_element("ds:DigestValue", none.as_str(), none.as_str()).as_str());
    let uri = concat("#", reference_id);
    let mut info = make_algorithm("ds:CanonicalizationMethod", EXC_C14N);
    info.append(make_algorithm("ds:SignatureMethod", signature_method_uri).as_str());
    info.append(
        make_element(
            "ds:Reference",
            make_attr("URI", uri.as_str()).as_str(),
            reference.as_str(),
        ).as_str(),
    );
    let cert = make_text_element("ds:X509Certificate", none.as_str(), cert_b64);
    let data = make_element("ds:X509Data", none.as_str(), cert.as_str());
    let mut body = make_element("ds:SignedInfo", none.as_str(), info.as_str());
    body.append(make_element("ds:SignatureValue", none.as_str(), none.as_str()).as_str());
    body.append(make_element("ds:KeyInfo", none.as_str(), data.as_str()).as_str());
    make_element("ds:Signature", make_attr("xmlns:ds", DS_NS).as_str(), body.as_str())
}

/// What closes the element after which a signature stands.
pub const ISSUER_END: &'static str = "</saml:Issuer>";

/// Whether `at` is where the signature of the element with an identifier goes:
/// right after the first Issuer that follows the identifier.
pub open spec fn is_signature_place(xml: Seq<char>, id: Seq<char>, at: int) -> bool {
    exists|p: int, q: int|
        {
            &&& #[trigger] is_first_at(xml, attr("ID"@, id), 0, p)
            &&& #[trigger] is_first_at(xml, ISSUER_END@, p, q)
            &&& at == q + ISSUER_END@.len()
        }
}

/// The document with `piece` where the signature of the element with an
/// identifier goes, if there is such a place.
pub open spec fn with_signature(xml: Seq<char>, id: Seq<char>, piece: Seq<char>) -> Option<Seq<char>> {
    if exists|at: int| is_signature_place(xml, id, at) {
        Some(spliced(xml, choose|at: int| is_signature_place(xml, id, at), piece))
    } else {
        None
    }
}

pub proof fn lemma_place_is_only(xml: Seq<char>, id: Seq<char>, a: int, b: int)
    requires
        is_signature_place(xml, id, a),
        is_signature_place(xml, id, b),
    ensures
        a == b,
{
    let (p, q) = choose|p: int, q: int|
        {
            &&& #[trigger] is_first_at(xml, attr("ID"@, id), 0, p)
            &&& #[trigger] is_first_at(xml, ISSUER_END@, p, q)
            &&& a == q + ISSUER_END@.len()
        };
    let (p2, q2) = choose|p: int, q: int|
        {
            &&& #[trigger] is_first_at(xml, attr("ID"@, id), 0, p)
            &&& #[trigger] is_first_at(xml, ISSUER_END@, p, q)
            &&& b == q + ISSUER_END@.len()
        };
    lemma_first_is_only(xml, attr("ID"@, id), 0, p, p2);
    lemma_first_is_only(xml, ISSUER_END@, p, q, q2);
}

/// Put `piece` where the signature of the element with an identifier goes.
pub fn insert_signature_after_issuer(xml: &str, id: &str, piece: &str) -> (result: Option<String>)
    ensures
        opt_text(result) == with_signature(xml@, id@, piece@),
{
    let chars = to_chars(xml);
    let marker = to_chars(make_attr("ID", id).as_str());
    let end = to_chars(ISSUER_END);
    let p: usize = match find(chars.as_slice(), marker.as_slice(), 0) {
        Some(p) => p,
        None => {
            assert forall|at: int| !is_signature_place(xml@, id@, at) by {}
            return None;
        },
    };
    let q: usize = match find(chars.as_slice(), end.as_slice(), p) {
        Some(q) => q,
        None => {
            assert forall|at: int| !is_signature_place(xml@, id@, at) by {
                if is_signature_place(xml@, id@, at) {
                    let (p2, q2) = choose|p2: int, q2: int|
                        {
                            &&& #[trigger] is_first_at(xml@, attr("ID"@, id@), 0, p2)
                            &&& #[trigger] is_first_at(xml@, ISSUER_END@, p2, q2)
                            &&& at == q2 + ISSUER_END@.len()
                        };
                    lemma_first_is_only(xml@, attr("ID"@, id@), 0, p as int, p2);
                    assert(stands_nowhere(xml@, ISSUER_END@, p as int));
                }
            }
            return None;
        },
    };
    let n: usize = chars.len();
    assert(q + end@.len() <= n);
    let at: usize = q + end.len();
    proof {
        assert(is_first_at(xml@, attr("ID"@, id@), 0, p as int));
        assert(is_first_at(xml@, ISSUER_END@, p as int, q as int));
        assert(is_signature_place(xml@, id@, at as int));
        lemma_place_is_only(xml@, id@, at as int, choose|b: int| is_signature_place(xml@, id@, b));
    }
    Some(splice(chars.as_slice(), at, piece))
}

/// Why an element could not be signed: it has no Issuer.
pub const NO_ISSUER: &'static str = "no Issuer to put the signature after";

/// Whether `result` is one that may come of signing the element with an
/// identifier: an empty signature is put after its Issuer, and the signer
/// gets the document.
pub open spec fn may_sign_element<F: Fn(&str) -> Result<String, String>>(
    signer: SamlSigner<F>,
    cert: Seq<char>,
    xml: Seq<char>,
    id: Seq<char>,
    result: Result<String, String>,
) -> bool {
    match with_signature(xml, id, template(id, cert, signer.method())) {
        Some(t) => signer.may_sign(t, result),
        None => result matches Err(e) && e@ == NO_ISSUER@,
    }
}

fn sign_element<F: Fn(&str) -> Result<String, String>>(
    signer: &SamlSigner<F>,
    cert_b64: &str,
    xml: &str,
    id: &str,
) -> (result: Result<String, String>)
    ensures
        may_sign_element(*signer, cert_b64@, xml@, id@, result),
{
    let piece = signature_template(id, cert_b64, signer.signature_method_uri());
    match insert_signature_after_issuer(xml, id, piece.as_str()) {
        Some(t) => signer.sign_enveloped(t.as_str()),
        None => Err(NO_ISSUER.to_owned()),
    }
}

/// Whether `result` is one that may come of signing a response: the assertion
/// first, then the response around it, each only if it is to be signed. A
/// signer's error is passed on.
pub open spec fn may_sign_response<F: Fn(&str) -> Result<String, String>>(
    signer: SamlSigner<F>,
    cert: Seq<char>,
    xml: Seq<char>,
    response_id: Seq<char>,
    assertion_id: Option<Seq<char>>,
    sign_assertion: bool,
    sign_response: bool,
    result: Result<String, String>,
) -> bool {
    exists|inner: Result<String, String>|
        {
            &&& #[trigger] may_sign_if(signer, cert, xml, assertion_id, sign_assertion, inner)
            &&& match inner {
                Ok(mid) => may_sign_if(
                    signer,
                    cert,
                    mid@,
                    Some(response_id),
                    sign_response,
                    result,
                ),
                Err(e) => result matches Err(e2) && e2@ == e@,
            }
        }
}

/// Whether `result` is one that may come of signing an element, if it is to be
/// signed and there is one.
pub open spec fn may_sign_if<F: Fn(&str) -> Result<String, String>>(
    signer: SamlSigner<F>,
    cert: Seq<char>,
    xml: Seq<char>,
    id: Option<Seq<char>>,
    sign: bool,
    result: Result<String, String>,
) -> bool {
    match id {
        Some(i) => if sign {
            may_sign_element(signer, cert, xml, i, result)
        } else {
            result matches Ok(s) && s@ == xml
        },
        None => result matches Ok(s) && s@ == xml,
    }
}

fn sign_if<F: Fn(&str) -> Result<String, String>>(
    signer: &SamlSigner<F>,
    cert_b64: &str,
    xml: &str,
    id: Option<&str>,
    sign: bool,
) -> (result: Result<String, String>)
    ensures
        may_sign_if(*signer, cert_b64@, xml@, opt_str(id), sign, result),
{
    match id {
        Some(i) => {
            if sign {
                sign_element(signer, cert_b64, xml, i)
            } else {
                Ok(xml.to_owned())
            }
        },
        None => Ok(xml.to_owned()),
    }
}

/// What the outcome of signing says.
pub open spec fn signed_text(r: Result<String, ProfileError>) -> Result<Seq<char>, ProfileErrorView> {
    match r {
        Ok(s) => Ok(s@),
        Err(e) => Err(e@),
    }
}

/// The outcome of signing, where a signer's error is a fault.
pub open spec fn as_fault(r: Result<String, String>) -> Result<Seq<char>, ProfileErrorView> {
    match r {
        Ok(s) => Ok(s@),
        Err(e) => Err(ProfileErrorView::Other("signing failed: "@ + e@)),
    }
}

/// Sign a response: the assertion first, then the response around it.
pub fn sign_response_xml<F: Fn(&str) -> Result<String, String>>(
    xml: &str,
    signer: &SamlSigner<F>,
    cert_der_b64: &str,
    response_id: &str,
    assertion_id: Option<&str>,
    sign_assertion: bool,
    sign_response: bool,
) -> (result: Result<String, ProfileError>)
    ensures
        may_be_signed(
            *signer,
            cert_der_b64@,
            xml@,
            response_id@,
            opt_str(assertion_id),
            sign_assertion,
            sign_response,
            signed_text(result),
        ),
{
    let inner = sign_if(signer, cert_der_b64, xml, assertion_id, sign_assertion);
    let outer = match inner {
        Ok(mid) => sign_if(signer, cert_der_b64, mid.as_str(), Some(response_id), sign_response),
        Err(e) => Err(e),
    };
    assert(may_sign_response(
        *signer,
        cert_der_b64@,
        xml@,
        response_id@,
        opt_str(assertion_id),
        sign_assertion,
        sign_response,
        outer,
    ));
    let ghost shown = as_fault(outer);
    let result = match outer {
        Ok(signed) => Ok(signed),
        Err(e) => Err(ProfileError::Other(concat("signing failed: ", e.as_str()))),
    };
    assert(signed_text(result) == shown);
    result
}

/// Whether `result` is one that may come of signing a response, where a
/// signer's error is a fault.
pub open spec fn may_be_signed<F: Fn(&str) -> Result<String, String>>(
    signer: SamlSigner<F>,
    cert: Seq<char>,
    xml: Seq<char>,
    response_id: Seq<char>,
    assertion_id: Option<Seq<char>>,
    sign_assertion: bool,
    sign_response: bool,
    result: Result<Seq<char>, ProfileErrorView>,
) -> bool {
    exists|r: Result<String, String>| #[trigger]
        may_sign_response(
            signer,
            cert,
            xml,
            response_id,
            assertion_id,
            sign_assertion,
            sign_response,
            r,
        ) && result == as_fault(r)
}

/// Without anything to sign, a response stays as it is.
pub proof fn law_unsigned_stays_as_it_is<F: Fn(&str) -> Result<String, String>>(
    signer: SamlSigner<F>,
    cert: Seq<char>,
    xml: Seq<char>,
    response_id: Seq<char>,
    assertion_id: Option<Seq<char>>,
    result: Result<Seq<char>, ProfileErrorView>,
)
    requires
        may_be_signed(signer, cert, xml, response_id, assertion_id, false, false, result),
    ensures
        result == Ok::<Seq<char>, ProfileErrorView>(xml),
{
}

/// What a signer is given for an element: the document with an empty signature
/// that refers to the element by its identifier. Where there is no place for it
/// the signer is not asked, and nothing is signed.
pub proof fn law_signer_gets_the_empty_signature<F: Fn(&str) -> Result<String, String>>(
    signer: SamlSigner<F>,
    cert: Seq<char>,
    xml: Seq<char>,
    id: Seq<char>,
    result: Result<String, String>,
)
    requires
        may_sign_element(signer, cert, xml, id, result),
    ensures
        with_signature(xml, id, template(id, cert, signer.method())) is None ==> result is Err,
        with_signature(xml, id, template(id, cert, signer.method())) matches Some(t)
            ==> signer.may_sign(t, result),
{
}

/// Where only one of the two is to be signed, the signer is asked for that one
/// alone, and what it makes is what comes out.
pub proof fn law_one_is_signed_alone<F: Fn(&str) -> Result<String, String>>(
    signer: SamlSigner<F>,
    cert: Seq<char>,
    xml: Seq<char>,
    response_id: Seq<char>,
    assertion_id: Seq<char>,
    sign_assertion: bool,
    sign_response: bool,
    signed_id: Seq<char>,
    result: Result<Seq<char>, ProfileErrorView>,
)
    requires
        sign_response == !sign_assertion,
        sign_assertion ==> signed_id == assertion_id,
        !sign_assertion ==> signed_id == response_id,
        may_be_signed(
            signer,
            cert,
            xml,
            response_id,
            Some(assertion_id),
            sign_assertion,
            sign_response,
            result,
        ),
    ensures
        exists|r: Result<String, String>|
            {
                &&& #[trigger] may_sign_element(signer, cert, xml, signed_id, r)
                &&& r matches Ok(s) ==> result == Ok::<Seq<char>, ProfileErrorView>(s@)
                &&& r is Err ==> result is Err
            },
{
    let r = choose|r: Result<String, String>| #[trigger]
        may_sign_response(
            signer,
            cert,
            xml,
            response_id,
            Some(assertion_id),
            sign_assertion,
            sign_response,
            r,
        ) && result == as_fault(r);
    let inner = choose|inner: Result<String, String>|
        {
            &&& #[trigger] may_sign_if(signer, cert, xml, Some(assertion_id), sign_assertion, inner)
            &&& match inner {
                Ok(mid) => may_sign_if(
                    signer,
                    cert,
                    mid@,
                    Some(response_id),
                    sign_response,
                    r,
                ),
                Err(e) => r matches Err(e2) && e2@ == e@,
            }
        };
    if sign_assertion {
        assert(may_sign_element(signer, cert, xml, assertion_id, inner));
    } else {
        assert(may_sign_element(signer, cert, xml, response_id, r));
    }
}

/// Where both are to be signed, the assertion is signed first, and the response
/// around what came of that: nothing that the response covers changes after it
/// is signed.
pub proof fn law_both_are_signed_in_order<F: Fn(&str) -> Result<String, String>>(
    signer: SamlSigner<F>,
    cert: Seq<char>,
    xml: Seq<char>,
    response_id: Seq<char>,
    assertion_id: Seq<char>,
    result: Result<Seq<char>, ProfileErrorView>,
)
    requires
        may_be_signed(
            signer,
            cert,
            xml,
            response_id,
            Some(assertion_id),
            true,
            true,
            result,
        ),
    ensures
        exists|first: Result<String, String>|
            {
                &&& #[trigger] may_sign_element(signer, cert, xml, assertion_id, first)
                &&& first is Err ==> result is Err
                &&& first matches Ok(mid) ==> exists|second: Result<String, String>|
                    {
                        &&& #[trigger] may_sign_element(signer, cert, mid@, response_id, second)
                        &&& second matches Ok(s) ==> result == Ok::<Seq<char>, ProfileErrorView>(
                            s@,
                        )
                        &&& second is Err ==> result is Err
                    }
            },
{
    let r = choose|r: Result<String, String>| #[trigger]
        may_sign_response(
            signer,
            cert,
            xml,
            response_id,
            Some(assertion_id),
            true,
            true,
            r,
        ) && result == as_fault(r);
    let inner = choose|inner: Result<String, String>|
        {
            &&& #[trigger] may_sign_if(signer, cert, xml, Some(assertion_id), true, inner)
            &&& match inner {
                Ok(mid) => may_sign_if(signer, cert, mid@, Some(response_id), true, r),
                Err(e) => r matches Err(e2) && e2@ == e@,
            }
        };
    assert(may_sign_element(signer, cert, xml, assertion_id, inner));
    if let Ok(mid) = inner {
        assert(may_sign_element(signer, cert, mid@, response_id, r));
    }
}

} // verus!
