//! What goes into the engine and comes out of it says what its fields hold.

use super::params::{
    AuthnMethodRef, AuthnMethodRefView, Disposition, DispositionView, EstablishedSession,
    IssuedResponse, ResponseOutcome, ResponseOutcomeView,
};
use super::respond::name_id_denial;
use super::denial::Denial;
use crate::idp::authn_broker::{method_views, AuthnMethod};
use crate::idp::ident::error::{IdentError, IdentErrorView};
use crate::idp::policy::{PolicyError, PolicyErrorView};
use crate::text::{opt_text, texts};
use vstd::prelude::*;

verus! {

/// A method, a reference to one, and a session say what their fields hold.
pub proof fn law_method_and_session_say_their_fields(
    m: AuthnMethod,
    v: Seq<AuthnMethod>,
    i: int,
    r: AuthnMethodRef,
    s: EstablishedSession,
)
    ensures
        m@.reference == m.reference@,
        m@.class_ref == m.class_ref@,
        m@.method == m.method@,
        m@.level == m.level,
        m@.authn_authority == opt_text(m.authn_authority),
        method_views(v).len() == v.len(),
        0 <= i < v.len() ==> method_views(v)[i] == v[i]@,
        r matches AuthnMethodRef::Inline { class_ref, authn_authority } ==> r@ == (
        AuthnMethodRefView::Inline {
            class_ref: class_ref@,
            authn_authority: opt_text(authn_authority),
        }),
        r matches AuthnMethodRef::BrokerReference(name) ==> r@
            == AuthnMethodRefView::BrokerReference(name@),
        s@.subject_id == s.subject_id@,
        s@.authn_method == s.authn_method@,
        s@.authn_instant == s.authn_instant,
        s@.session_index == s.session_index@,
{
}

/// What is decided, and what comes out in the end, says which it is and what it
/// holds.
pub proof fn law_outcome_says_what_it_holds(
    d: Disposition,
    issued: IssuedResponse,
    outcome: ResponseOutcome,
)
    ensures
        d matches Disposition::ReuseSession { session } ==> d@ == (DispositionView::ReuseSession {
            session: session@,
        }),
        d matches Disposition::Authenticate { methods } ==> d@ == (DispositionView::Authenticate {
            methods: method_views(methods@),
        }),
        d matches Disposition::Deny { denial } ==> d@ == (DispositionView::Deny { denial }),
        issued@.xml == issued.xml@,
        issued@.response_id == issued.response_id@,
        issued@.assertion_id == opt_text(issued.assertion_id),
        issued@.name_id == issued.name_id@,
        issued@.session_index == opt_text(issued.session_index),
        issued@.not_on_or_after == issued.not_on_or_after,
        issued@.released_attribute_names == texts(issued.released_attribute_names@),
        outcome matches ResponseOutcome::Issued(r) ==> outcome@ == ResponseOutcomeView::Issued(r@),
        outcome matches ResponseOutcome::Denied { denial, response } ==> outcome@ == (
        ResponseOutcomeView::Denied { denial, response: response@ }),
{
}

/// Errors say which they are, and what they name.
pub proof fn law_error_says_what_it_is(p: PolicyError, e: IdentError)
    ensures
        p matches PolicyError::MissingRequiredAttribute(name) ==> p@
            == PolicyErrorView::MissingRequiredAttribute(name@),
        p matches PolicyError::MissingRequiredValue { attribute } ==> p@
            == PolicyErrorView::MissingRequiredValue(attribute@),
        p matches PolicyError::Misconfigured(what) ==> p@ == PolicyErrorView::Misconfigured(what@),
        e matches IdentError::UnknownNameId(value) ==> e@ == IdentErrorView::UnknownNameId(value@),
        e is CreateNotAllowed ==> e@ is CreateNotAllowed,
        e is NoFormat ==> e@ is NoFormat,
        e is Unsupported ==> e@ is Unsupported,
{
}

/// A NameID that may not be created is refused as such; any other error of the
/// identity database is one of the policy.
pub proof fn law_naming_error_is_told_apart(e: IdentErrorView)
    ensures
        name_id_denial(e) == Denial::NameIdCreationNotAllowed <==> e is CreateNotAllowed,
        name_id_denial(e) == Denial::InvalidNameIdPolicy <==> !(e is CreateNotAllowed),
{
}

} // verus!
