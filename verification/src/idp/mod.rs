//! The identity provider.

pub mod assertion_store;
pub mod authn_broker;
pub mod broker_laws;
pub mod entity_category;
pub mod ident;
pub mod orchestrator;
pub mod policy;
pub mod policy_laws;
