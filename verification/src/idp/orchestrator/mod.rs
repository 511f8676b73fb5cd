//! Response orchestration: from an authentication request and an authenticated
//! subject to a signed response.

pub mod answer_laws;
pub mod decision_laws;
pub mod denial;
pub mod laws;
pub mod params;
pub mod release;
pub mod respond;
pub mod view_laws;

pub use denial::Denial;
pub use params::{
    AuthenticatedSubject, AuthnMethodRef, Disposition, EstablishedSession, IssuedResponse,
    ResponseOutcome, ResponseParams,
};
pub use release::{AttributeRelease, ChainedRelease, PassThroughRelease};
pub use respond::{
    check_request, create_authn_response, create_denial_response, ResponseEngine,
};
