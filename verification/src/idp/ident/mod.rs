//! The identity database: which NameIDs were issued to which local user.
//!
//! It keeps the mapping between local users and the NameIDs issued to service
//! providers in both directions, issues NameIDs as a request's policy asks for
//! them, and answers requests to manage and to map NameIDs. The storage backend
//! is pluggable.

pub mod coding;
pub mod db;
pub mod error;
pub mod forward;
pub mod laws;
pub mod mint;
pub mod op;
pub mod pool;
pub mod run;
pub mod schedule;
pub mod step_laws;
pub mod store;
pub mod value_laws;

pub use coding::{code_name_id, decode_name_id};
pub use db::{IdentDb, NameIdConstructor};
pub use error::IdentError;
pub use op::{IdentOp, Issue};
pub use store::{IdentityStore, InMemoryIdentityStore};
