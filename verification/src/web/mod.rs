//! The decisions of the identity provider's HTTP endpoints.

pub mod artifact;
pub mod artifact_flow;
pub mod config;
pub mod error;
pub mod flow_laws;
pub mod laws;
pub mod logout;
pub mod message_laws;
pub mod messages;
pub mod metadata;
pub mod parts;
pub mod post;
pub mod signature;
pub mod signing;
pub mod slo_flow;
pub mod sso;
pub mod sso_flow;
pub mod sso_run;
