//! SAML 2.0 data types.

pub mod attribute;
pub mod constants;
pub mod error;
pub mod metadata;
pub mod name_id;
pub mod request;
pub mod response;
pub mod response_reading;
pub mod response_xml;
pub mod placement;
pub mod signed_reading;
pub mod signing;
pub mod status;
pub mod time;
pub mod view_laws;
