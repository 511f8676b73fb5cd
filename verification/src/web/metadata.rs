//! The metadata of the identity provider.

use super::config::IdpConfig;
use super::error::{SamlActixError, SamlActixErrorView};
use super::signing::{
    begins_at, insert_signature_after_element, is_with_first_child, law_first_child_is_determined,
    metadata_signing_cert_b64, web_signed_text, IdpSigningContext,
};
use crate::saml::constants::{
    BINDING_HTTP_POST, BINDING_HTTP_REDIRECT, NAMEID_EMAIL, NAMEID_TRANSIENT, PROTOCOL_SAML2,
};
use crate::saml::signing::{signature_template, template, DS_NS};
use crate::text::{concat, opt_str, opt_text};
use crate::xml::{
    attr, closes_at, element, is_first_at, is_inert, is_tag_end, is_unclosed, lemma_element_opens,
    lemma_first_is_only, lemma_tag_ends, make_attr, make_element, make_text_element, spliced,
    stands_at, text_element,
};
use vstd::prelude::*;
use vstd::string::StringExecFns;

verus! {

/// The namespace of SAML metadata.
pub const MD_NS: &'static str = "urn:oasis:names:tc:SAML:2.0:metadata";

/// An endpoint.
pub open spec fn endpoint_xml(name: Seq<char>, binding: Seq<char>, location: Seq<char>) -> Seq<
    char,
> {
    element(name, attr("Binding"@, binding) + attr("Location"@, location), Seq::empty())
}

fn make_endpoint(name: &str, binding: &str, location: &str) -> (result: String)
    ensures
        result@ == endpoint_xml(name@, binding@, location@),
{
    let none = String::new();
    assert(none@ == Seq::<char>::empty());
    let mut attrs = make_attr("Binding", binding);
    attrs.append(make_attr("Location", location).as_str());
    make_element(name, attrs.as_str(), none.as_str())
}

/// An endpoint for both front-channel bindings.
pub open spec fn endpoints_xml(name: Seq<char>, location: Seq<char>) -> Seq<char> {
    endpoint_xml(name, BINDING_HTTP_REDIRECT@, location) + endpoint_xml(
        name,
        BINDING_HTTP_POST@,
        location,
    )
}

fn make_endpoints(name: &str, location: &str) -> (result: String)
    ensures
        result@ == endpoints_xml(name@, location@),
{
    let mut out = make_endpoint(name, BINDING_HTTP_REDIRECT, location);
    out.append(make_endpoint(name, BINDING_HTTP_POST, location).as_str());
    out
}

/// The signing key, where there is a certificate.
pub open spec fn key_xml(cert: Option<Seq<char>>) -> Seq<char> {
    match cert {
        Some(c) => element(
            "md:KeyDescriptor"@,
            attr("use"@, "signing"@),
            element(
                "ds:KeyInfo"@,
                attr("xmlns:ds"@, DS_NS@),
                element(
                    "ds:X509Data"@,
                    Seq::empty(),
                    text_element("ds:X509Certificate"@, Seq::empty(), c),
                ),
            ),
        ),
        None => Seq::empty(),
    }
}

fn make_key(cert: Option<&str>) -> (result: String)
    ensures
        result@ == key_xml(opt_str(cert)),
{
    let none = String::new();
    assert(none@ == Seq::<char>::empty());
    match cert {
        Some(c) => {
            let certificate = make_text_element("ds:X509Certificate", none.as_str(), c);
            let data = make_element("ds:X509Data", none.as_str(), certificate.as_str());
            let info = make_element(
                "ds:KeyInfo",
                make_attr("xmlns:ds", DS_NS).as_str(),
                data.as_str(),
            );
            make_element(
                "md:KeyDescriptor",
                make_attr("use", "signing").as_str(),
                info.as_str(),
            )
        },
        None => none,
    }
}

/// The logout endpoint, where there is one.
pub open spec fn logout_xml(slo_url: Seq<char>) -> Seq<char> {
    if slo_url.len() == 0 {
        Seq::empty()
    } else {
        endpoints_xml("md:SingleLogoutService"@, slo_url)
    }
}

/// The attributes of the metadata.
pub open spec fn metadata_attrs(config: IdpConfig, id: Seq<char>) -> Seq<char> {
    attr("xmlns:md"@, MD_NS@) + attr("entityID"@, config.entity_id@) + attr("ID"@, id)
}

/// The identity provider role in the metadata.
pub open spec fn role_xml(config: IdpConfig, cert: Option<Seq<char>>) -> Seq<char> {
    element(
        "md:IDPSSODescriptor"@,
        attr("protocolSupportEnumeration"@, PROTOCOL_SAML2@) + attr(
            "WantAuthnRequestsSigned"@,
            "false"@,
        ),
        key_xml(cert) + logout_xml(config.slo_url@) + text_element(
            "md:NameIDFormat"@,
            Seq::empty(),
            NAMEID_TRANSIENT@,
        ) + text_element("md:NameIDFormat"@, Seq::empty(), NAMEID_EMAIL@) + endpoints_xml(
            "md:SingleSignOnService"@,
            config.sso_url@,
        ),
    )
}

/// The metadata, unsigned.
pub open spec fn metadata_xml(config: IdpConfig, cert: Option<Seq<char>>, id: Seq<char>) -> Seq<
    char,
> {
    element("md:EntityDescriptor"@, metadata_attrs(config, id), role_xml(config, cert))
}

fn make_metadata(config: &IdpConfig, cert: Option<&str>, id: &str) -> (result: String)
    ensures
        result@ == metadata_xml(*config, opt_str(cert), id@),
{
    let none = String::new();
    assert(none@ == Seq::<char>::empty());
    let mut body = make_key(cert);
    let logout = if config.slo_url.as_str().is_empty() {
        String::new()
    } else {
        make_endpoints("md:SingleLogoutService", config.slo_url.as_str())
    };
    assert(logout@ == logout_xml(config.slo_url@));
    body.append(logout.as_str());
    body.append(make_text_element("md:NameIDFormat", none.as_str(), NAMEID_TRANSIENT).as_str());
    body.append(make_text_element("md:NameIDFormat", none.as_str(), NAMEID_EMAIL).as_str());
    body.append(make_endpoints("md:SingleSignOnService", config.sso_url.as_str()).as_str());
    let mut role_attrs = make_attr("protocolSupportEnumeration", PROTOCOL_SAML2);
    role_attrs.append(make_attr("WantAuthnRequestsSigned", "false").as_str());
    let role = make_element("md:IDPSSODescriptor", role_attrs.as_str(), body.as_str());
    let mut attrs = make_attr("xmlns:md", MD_NS);
    attrs.append(make_attr("entityID", config.entity_id.as_str()).as_str());
    attrs.append(make_attr("ID", id).as_str());
    make_element("md:EntityDescriptor", attrs.as_str(), role.as_str())
}

/// The certificate that metadata publishes.
pub open spec fn published_cert<F: Fn(&str) -> Result<String, String>>(
    config: IdpConfig,
    ctx: Option<&IdpSigningContext<F>>,
) -> Option<Seq<char>> {
    match ctx {
        Some(c) => Some(c.cert_b64@),
        None => opt_text(config.signing_cert_b64),
    }
}

/// Whether `result` is the metadata that is published: signed where there is a
/// key, with the signature as the first child.
pub open spec fn may_publish<F: Fn(&str) -> Result<String, String>>(
    config: IdpConfig,
    ctx: Option<&IdpSigningContext<F>>,
    id: Seq<char>,
    result: Result<Seq<char>, SamlActixErrorView>,
) -> bool {
    let unsigned = metadata_xml(config, published_cert(config, ctx), id);
    match ctx {
        None => result == Ok::<Seq<char>, SamlActixErrorView>(unsigned),
        Some(c) => exists|t: Seq<char>, r: Result<String, String>|
            {
                &&& is_with_first_child(
                    unsigned,
                    "md:EntityDescriptor"@,
                    template(id, c.cert_b64@, c.signer.method()),
                    t,
                )
                &&& #[trigger] c.signer.may_sign(t, r)
                &&& result == match r {
                    Ok(s) => Ok::<Seq<char>, SamlActixErrorView>(s@),
                    Err(e) => Err(
                        SamlActixErrorView::Internal("metadata signing failed: "@ + e@),
                    ),
                }
            },
    }
}

/// The names in the tag that opens metadata hold no markup.
proof fn lemma_names_are_inert()
    ensures
        is_inert("md:EntityDescriptor"@),
        is_inert("xmlns:md"@),
        is_inert("entityID"@),
        is_inert("ID"@),
{
    reveal_strlit("md:EntityDescriptor");
    reveal_strlit("xmlns:md");
    reveal_strlit("entityID");
    reveal_strlit("ID");
}

/// Metadata has a place for a signature: its element opens with attributes, and
/// the tag ends after them.
proof fn lemma_metadata_can_be_signed(config: IdpConfig, cert: Option<Seq<char>>, id: Seq<char>)
    ensures
        is_first_at(
            metadata_xml(config, cert, id),
            "<"@ + "md:EntityDescriptor"@ + " "@,
            0,
            0,
        ),
        is_tag_end(
            metadata_xml(config, cert, id),
            0,
            1int + "md:EntityDescriptor"@.len() + metadata_attrs(config, id).len(),
        ),
{
    let first = attr("xmlns:md"@, MD_NS@);
    let second = attr("entityID"@, config.entity_id@);
    let third = attr("ID"@, id);
    let role = role_xml(config, cert);
    assert(first + second + third == first + (second + third));
    lemma_element_opens("md:EntityDescriptor"@, "xmlns:md"@, MD_NS@, second + third, role);
    lemma_names_are_inert();
    lemma_tag_ends(
        "md:EntityDescriptor"@,
        ("xmlns:md"@, MD_NS@),
        ("entityID"@, config.entity_id@),
        ("ID"@, id),
        role,
    );
}

proof fn lemma_spliced_into_element(
    name: Seq<char>,
    attrs: Seq<char>,
    body: Seq<char>,
    piece: Seq<char>,
)
    ensures
        spliced(element(name, attrs, body), 1int + name.len() + attrs.len() + 1, piece) == element(
            name,
            attrs,
            piece + body,
        ),
{
    reveal_strlit("<");
    reveal_strlit(">");
    let head = "<"@ + name + attrs + ">"@;
    let tail = body + "</"@ + name + ">"@;
    let at = head.len() as int;
    assert(element(name, attrs, body) == head + tail);
    assert((head + tail).take(at) == head);
    assert((head + tail).skip(at) == tail);
    assert(head + piece + tail == element(name, attrs, piece + body));
}

/// The signature in metadata comes first: before the role, and within the
/// element that the metadata is.
pub proof fn law_metadata_signature_comes_first(
    config: IdpConfig,
    cert: Option<Seq<char>>,
    id: Seq<char>,
    piece: Seq<char>,
    result: Seq<char>,
)
    requires
        is_with_first_child(
            metadata_xml(config, cert, id),
            "md:EntityDescriptor"@,
            piece,
            result,
        ),
    ensures
        result == element(
            "md:EntityDescriptor"@,
            metadata_attrs(config, id),
            piece + role_xml(config, cert),
        ),
{
    let xml = metadata_xml(config, cert, id);
    let name = "md:EntityDescriptor"@;
    let attrs = metadata_attrs(config, id);
    let end = 1int + name.len() + attrs.len();
    lemma_metadata_can_be_signed(config, cert, id);
    lemma_spliced_into_element(name, attrs, role_xml(config, cert), piece);
    assert(begins_at(xml, name, 0));
    assert(is_with_first_child(xml, name, piece, spliced(xml, end + 1, piece)));
    law_first_child_is_determined(
        xml,
        name,
        piece,
        result,
        spliced(xml, end + 1, piece),
    );
}

/// The metadata of the identity provider, with a given identifier: with the
/// signing certificate, and signed where there is a key.
pub fn idp_metadata<F: Fn(&str) -> Result<String, String>>(
    config: &IdpConfig,
    signing_ctx: Option<&IdpSigningContext<F>>,
    metadata_id: &str,
) -> (result: Result<String, SamlActixError>)
    ensures
        may_publish(*config, signing_ctx, metadata_id@, web_signed_text(result)),
{
    let cert = metadata_signing_cert_b64(config, signing_ctx);
    let xml = make_metadata(config, cert, metadata_id);
    match signing_ctx {
        None => {
            let result = Ok(xml);
            assert(web_signed_text(result) == Ok::<Seq<char>, SamlActixErrorView>(xml@));
            result
        },
        Some(ctx) => {
            proof {
                lemma_metadata_can_be_signed(*config, opt_str(cert), metadata_id@);
            }
            let piece = signature_template(
                metadata_id,
                ctx.cert_b64.as_str(),
                ctx.signer.signature_method_uri(),
            );
            let t = match insert_signature_after_element(
                xml.as_str(),
                "md:EntityDescriptor",
                piece.as_str(),
            ) {
                Ok(t) => t,
                Err(e) => {
                    proof {
                        let start = choose|start: int|
                            begins_at(xml@, "md:EntityDescriptor"@, start) && is_unclosed(
                                xml@,
                                start,
                            );
                        let wide = "<"@ + "md:EntityDescriptor"@ + " "@;
                        assert(stands_at(xml@, wide, 0));
                        lemma_first_is_only(xml@, wide, 0, 0, start);
                        assert(closes_at(
                            xml@,
                            0,
                            1int + "md:EntityDescriptor"@.len() + metadata_attrs(
                                *config,
                                metadata_id@,
                            ).len(),
                        ));
                    }
                    return Err(e);
                },
            };
            let signed = ctx.signer.sign_enveloped(t.as_str());
            let ghost shown = signed;
            let result = match signed {
                Ok(s) => Ok(s),
                Err(e) => Err(
                    SamlActixError::Internal(concat("metadata signing failed: ", e.as_str())),
                ),
            };
            proof {
                assert(ctx.signer.may_sign(t@, shown));
                assert(web_signed_text(result) == match shown {
                    Ok(s) => Ok::<Seq<char>, SamlActixErrorView>(s@),
                    Err(e) => Err(SamlActixErrorView::Internal("metadata signing failed: "@ + e@)),
                });
            }
            result
        },
    }
}

} // verus!
