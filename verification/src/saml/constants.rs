//! SAML 2.0 identifiers.

use vstd::prelude::*;

verus! {

/// The persistent NameID format.
pub const NAMEID_PERSISTENT: &'static str = "urn:oasis:names:tc:SAML:2.0:nameid-format:persistent";

/// The transient NameID format.
pub const NAMEID_TRANSIENT: &'static str = "urn:oasis:names:tc:SAML:2.0:nameid-format:transient";

/// The email address NameID format.
pub const NAMEID_EMAIL: &'static str = "urn:oasis:names:tc:SAML:1.1:nameid-format:emailAddress";

/// The unspecified NameID format.
pub const NAMEID_UNSPECIFIED: &'static str = "urn:oasis:names:tc:SAML:1.1:nameid-format:unspecified";

/// The request succeeded.
pub const STATUS_SUCCESS: &'static str = "urn:oasis:names:tc:SAML:2.0:status:Success";

/// The request could not be performed due to an error of the requester.
pub const STATUS_REQUESTER: &'static str = "urn:oasis:names:tc:SAML:2.0:status:Requester";

/// The request could not be performed due to an error of the responder.
pub const STATUS_RESPONDER: &'static str = "urn:oasis:names:tc:SAML:2.0:status:Responder";

/// The principal cannot be authenticated passively.
pub const STATUS_NO_PASSIVE: &'static str = "urn:oasis:names:tc:SAML:2.0:status:NoPassive";

/// The requested authentication context cannot be met.
pub const STATUS_NO_AUTHN_CONTEXT: &'static str =
    "urn:oasis:names:tc:SAML:2.0:status:NoAuthnContext";

/// The requested NameID policy cannot be supported.
pub const STATUS_INVALID_NAMEID_POLICY: &'static str =
    "urn:oasis:names:tc:SAML:2.0:status:InvalidNameIDPolicy";

/// An attribute has an unexpected or invalid name or value.
pub const STATUS_INVALID_ATTR_NAME_OR_VALUE: &'static str =
    "urn:oasis:names:tc:SAML:2.0:status:InvalidAttrNameOrValue";

/// The responder does not support the request.
pub const STATUS_REQUEST_UNSUPPORTED: &'static str =
    "urn:oasis:names:tc:SAML:2.0:status:RequestUnsupported";

/// Password authentication.
pub const AUTHN_CONTEXT_PASSWORD: &'static str = "urn:oasis:names:tc:SAML:2.0:ac:classes:Password";

/// Password authentication over a protected transport.
pub const AUTHN_CONTEXT_PASSWORD_PROTECTED_TRANSPORT: &'static str =
    "urn:oasis:names:tc:SAML:2.0:ac:classes:PasswordProtectedTransport";

/// Authentication with an X.509 certificate.
pub const AUTHN_CONTEXT_X509: &'static str = "urn:oasis:names:tc:SAML:2.0:ac:classes:X509";

/// Attribute names that are URIs.
pub const ATTRNAME_FORMAT_URI: &'static str = "urn:oasis:names:tc:SAML:2.0:attrname-format:uri";

/// The metadata attribute that lists entity categories.
pub const ENTITY_CATEGORY_ATTR: &'static str = "http://macedir.org/entity-category";

/// The SAML 2.0 protocol.
pub const PROTOCOL_SAML2: &'static str = "urn:oasis:names:tc:SAML:2.0:protocol";

/// The HTTP-Redirect binding.
pub const BINDING_HTTP_REDIRECT: &'static str =
    "urn:oasis:names:tc:SAML:2.0:bindings:HTTP-Redirect";

/// The HTTP-POST binding.
pub const BINDING_HTTP_POST: &'static str = "urn:oasis:names:tc:SAML:2.0:bindings:HTTP-POST";

} // verus!
