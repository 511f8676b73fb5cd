//! Delivery by the HTTP-POST binding: a page with a form that posts itself.

use crate::idp::orchestrator::params::IssuedResponse;
use crate::text::opt_str;
use crate::xml::{attr, element, make_attr, make_element};
use base64::Engine;
use vstd::prelude::*;
use vstd::string::*;
use vstd::utf8::encode_utf8;

verus! {

/// The base64 text of bytes.
pub uninterp spec fn base64_of(bytes: Seq<u8>) -> Seq<char>;

/// `base64::Engine::encode` of the standard engine gives the base64 text of
/// bytes, with padding; it depends on the bytes alone.
#[verifier::external_body]
fn base64_text(bytes: &[u8]) -> (result: String)
    ensures
        result@ == base64_of(bytes@),
{
    base64::engine::general_purpose::STANDARD.encode(bytes)
}

/// A hidden field of a form.
pub open spec fn hidden(name: Seq<char>, value: Seq<char>) -> Seq<char> {
    element(
        "input"@,
        attr("type"@, "hidden"@) + attr("name"@, name) + attr("value"@, value),
        Seq::empty(),
    )
}

fn make_hidden(name: &str, value: &str) -> (result: String)
    ensures
        result@ == hidden(name@, value@),
{
    let none = String::new();
    assert(none@ == Seq::<char>::empty());
    let mut attrs = make_attr("type", "hidden");
    attrs.append(make_attr("name", name).as_str());
    attrs.append(make_attr("value", value).as_str());
    make_element("input", attrs.as_str(), none.as_str())
}

/// The hidden field of the relay state, where there is one.
pub open spec fn relay_field(relay_state: Option<Seq<char>>) -> Seq<char> {
    match relay_state {
        Some(r) => hidden("RelayState"@, r),
        None => Seq::empty(),
    }
}

/// The page that posts a response to where it goes, and gives the relay state
/// back as it came.
pub open spec fn post_page(xml: Seq<char>, acs_url: Seq<char>, relay_state: Option<Seq<char>>) -> Seq<
    char,
> {
    "<!DOCTYPE html>"@ + element(
        "html"@,
        Seq::empty(),
        element(
            "body"@,
            attr("onload"@, "document.forms[0].submit()"@),
            element(
                "form"@,
                attr("method"@, "post"@) + attr("action"@, acs_url),
                hidden("SAMLResponse"@, base64_of(encode_utf8(xml))) + relay_field(relay_state)
                    + element("button"@, attr("type"@, "submit"@), "Continue"@),
            ),
        ),
    )
}

/// The page that posts a response to where it goes.
pub fn post_encode(xml: &str, acs_url: &str, relay_state: Option<&str>) -> (result: String)
    ensures
        result@ == post_page(xml@, acs_url@, opt_str(relay_state)),
{
    let none = String::new();
    assert(none@ == Seq::<char>::empty());
    let mut fields = make_hidden("SAMLResponse", base64_text(xml.as_bytes()).as_str());
    let relay = match relay_state {
        Some(r) => make_hidden("RelayState", r),
        None => String::new(),
    };
    assert(relay@ == relay_field(opt_str(relay_state)));
    fields.append(relay.as_str());
    fields.append(
        make_element("button", make_attr("type", "submit").as_str(), "Continue").as_str(),
    );
    let mut form_attrs = make_attr("method", "post");
    form_attrs.append(make_attr("action", acs_url).as_str());
    let form = make_element("form", form_attrs.as_str(), fields.as_str());
    let body = make_element(
        "body",
        make_attr("onload", "document.forms[0].submit()").as_str(),
        form.as_str(),
    );
    let mut page = "<!DOCTYPE html>".to_owned();
    page.append(make_element("html", none.as_str(), body.as_str()).as_str());
    page
}

/// The page that delivers an issued response.
pub fn post_issued_response(issued: &IssuedResponse, acs_url: &str, relay_state: Option<&str>) -> (result:
    String)
    ensures
        result@ == post_page(issued@.xml, acs_url@, opt_str(relay_state)),
{
    post_encode(issued.xml.as_str(), acs_url, relay_state)
}

} // verus!
