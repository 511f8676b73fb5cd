//! SAML 2.0 identity provider logic.

pub mod digest;
pub mod idp;
pub mod reading;
pub mod saml;
pub mod text;
pub mod web;
pub mod xml;
