//! The attribute-release seam.
//!
//! An identity provider that holds the attributes applies its own
//! [`ReleasePolicy`]. A proxy gets attributes that were filtered upstream and
//! passes them through, or adds a layer of its own. [`AttributeRelease`] lets
//! the response engine serve both.

use crate::idp::entity_category::SubjectIdReq;
use crate::idp::policy::{
    filtered, release_outcome, PolicyError, PolicyErrorView, ReleasePolicy,
};
use crate::saml::attribute::{
    attribute_views, requested_views, Attribute, AttributeView, RequestedAttribute,
    RequestedAttributeView,
};
use crate::text::texts;
use std::sync::Arc;
use vstd::prelude::*;

verus! {

/// Decides which of the held attributes are released to a service provider.
pub trait AttributeRelease: Send + Sync {
    /// Whether `result` is one that may come of releasing `attributes`. An
    /// implementation that does not say promises nothing.
    open spec fn may_release(
        &self,
        attributes: Seq<AttributeView>,
        sp_entity_id: Seq<char>,
        sp_entity_categories: Seq<Seq<char>>,
        required: Seq<RequestedAttributeView>,
        optional: Seq<RequestedAttributeView>,
        subject_id_req: SubjectIdReq,
        result: Result<Seq<AttributeView>, PolicyErrorView>,
    ) -> bool {
        true
    }

    /// Release `attributes` for `sp_entity_id`.
    ///
    /// `sp_entity_categories` are the entity categories that the service
    /// provider publishes, `required` and `optional` the attributes it asks
    /// for, and `subject_id_req` the subject identifier it needs.
    fn release(
        &self,
        attributes: Vec<Attribute>,
        sp_entity_id: &str,
        sp_entity_categories: &[String],
        required: &[RequestedAttribute],
        optional: &[RequestedAttribute],
        subject_id_req: SubjectIdReq,
    ) -> (result: Result<Vec<Attribute>, PolicyError>)
        ensures
            self.may_release(
                attribute_views(attributes@),
                sp_entity_id@,
                texts(sp_entity_categories@),
                requested_views(required@),
                requested_views(optional@),
                subject_id_req,
                release_outcome(result),
            ),
    ;
}

/// The full release engine, for an identity provider that holds the attributes.
impl AttributeRelease for ReleasePolicy {
    open spec fn may_release(
        &self,
        attributes: Seq<AttributeView>,
        sp_entity_id: Seq<char>,
        sp_entity_categories: Seq<Seq<char>>,
        required: Seq<RequestedAttributeView>,
        optional: Seq<RequestedAttributeView>,
        subject_id_req: SubjectIdReq,
        result: Result<Seq<AttributeView>, PolicyErrorView>,
    ) -> bool {
        result == filtered(
            self.entry_of(sp_entity_id),
            attributes,
            sp_entity_categories,
            required,
            optional,
            subject_id_req,
        )
    }

    fn release(
        &self,
        attributes: Vec<Attribute>,
        sp_entity_id: &str,
        sp_entity_categories: &[String],
        required: &[RequestedAttribute],
        optional: &[RequestedAttribute],
        subject_id_req: SubjectIdReq,
    ) -> (result: Result<Vec<Attribute>, PolicyError>) {
        self.filter(
            attributes,
            sp_entity_id,
            sp_entity_categories,
            required,
            optional,
            subject_id_req,
        )
    }
}

/// The identity release: returns the input unchanged.
#[derive(Debug, Clone, Copy, Default)]
pub struct PassThroughRelease;

impl PassThroughRelease {
    /// Create a pass-through release.
    pub fn new() -> (result: Self)
        ensures
            result == PassThroughRelease,
    {
        PassThroughRelease
    }
}

impl AttributeRelease for PassThroughRelease {
    open spec fn may_release(
        &self,
        attributes: Seq<AttributeView>,
        sp_entity_id: Seq<char>,
        sp_entity_categories: Seq<Seq<char>>,
        required: Seq<RequestedAttributeView>,
        optional: Seq<RequestedAttributeView>,
        subject_id_req: SubjectIdReq,
        result: Result<Seq<AttributeView>, PolicyErrorView>,
    ) -> bool {
        result == Ok::<Seq<AttributeView>, PolicyErrorView>(attributes)
    }

    fn release(
        &self,
        attributes: Vec<Attribute>,
        _sp_entity_id: &str,
        _sp_entity_categories: &[String],
        _required: &[RequestedAttribute],
        _optional: &[RequestedAttribute],
        _subject_id_req: SubjectIdReq,
    ) -> (result: Result<Vec<Attribute>, PolicyError>)
        ensures
            result == Ok::<Vec<Attribute>, PolicyError>(attributes),
    {
        Ok(attributes)
    }
}

/// A composition of two release decisions: run `first`, then `second` on the
/// result.
#[derive(Debug, Clone)]
pub struct ChainedRelease<A, B> {
    first: A,
    second: B,
}

impl<A, B> ChainedRelease<A, B> {
    /// The release that runs first.
    pub closed spec fn first(&self) -> A {
        self.first
    }

    /// The release that runs on the result of the first.
    pub closed spec fn second(&self) -> B {
        self.second
    }

    /// Create a chained release: `first` runs, then `second` on its output.
    pub fn new(first: A, second: B) -> (result: Self)
        ensures
            result.first() == first,
            result.second() == second,
    {
        ChainedRelease { first, second }
    }
}

impl<A: AttributeRelease, B: AttributeRelease> AttributeRelease for ChainedRelease<A, B> {
    open spec fn may_release(
        &self,
        attributes: Seq<AttributeView>,
        sp_entity_id: Seq<char>,
        sp_entity_categories: Seq<Seq<char>>,
        required: Seq<RequestedAttributeView>,
        optional: Seq<RequestedAttributeView>,
        subject_id_req: SubjectIdReq,
        result: Result<Seq<AttributeView>, PolicyErrorView>,
    ) -> bool {
        exists|middle: Result<Seq<AttributeView>, PolicyErrorView>|
            {
                &&& #[trigger] self.first().may_release(
                    attributes,
                    sp_entity_id,
                    sp_entity_categories,
                    required,
                    optional,
                    subject_id_req,
                    middle,
                )
                &&& match middle {
                    Ok(left) => self.second().may_release(
                        left,
                        sp_entity_id,
                        sp_entity_categories,
                        required,
                        optional,
                        subject_id_req,
                        result,
                    ),
                    Err(_) => result == middle,
                }
            }
    }

    fn release(
        &self,
        attributes: Vec<Attribute>,
        sp_entity_id: &str,
        sp_entity_categories: &[String],
        required: &[RequestedAttribute],
        optional: &[RequestedAttribute],
        subject_id_req: SubjectIdReq,
    ) -> (result: Result<Vec<Attribute>, PolicyError>) {
        let middle = self.first.release(
            attributes,
            sp_entity_id,
            sp_entity_categories,
            required,
            optional,
            subject_id_req,
        );
        let ghost shown = release_outcome(middle);
        let result = match middle {
            Ok(left) => self.second.release(
                left,
                sp_entity_id,
                sp_entity_categories,
                required,
                optional,
                subject_id_req,
            ),
            Err(e) => Err(e),
        };
        assert(self.first().may_release(
            attribute_views(attributes@),
            sp_entity_id@,
            texts(sp_entity_categories@),
            requested_views(required@),
            requested_views(optional@),
            subject_id_req,
            shown,
        ));
        assert(shown is Err ==> release_outcome(result) == shown);
        result
    }
}

/// A shared release is usable wherever a release is.
impl<T: AttributeRelease + ?Sized> AttributeRelease for Arc<T> {
    open spec fn may_release(
        &self,
        attributes: Seq<AttributeView>,
        sp_entity_id: Seq<char>,
        sp_entity_categories: Seq<Seq<char>>,
        required: Seq<RequestedAttributeView>,
        optional: Seq<RequestedAttributeView>,
        subject_id_req: SubjectIdReq,
        result: Result<Seq<AttributeView>, PolicyErrorView>,
    ) -> bool {
        (**self).may_release(
            attributes,
            sp_entity_id,
            sp_entity_categories,
            required,
            optional,
            subject_id_req,
            result,
        )
    }

    fn release(
        &self,
        attributes: Vec<Attribute>,
        sp_entity_id: &str,
        sp_entity_categories: &[String],
        required: &[RequestedAttribute],
        optional: &[RequestedAttribute],
        subject_id_req: SubjectIdReq,
    ) -> (result: Result<Vec<Attribute>, PolicyError>) {
        (**self).release(
            attributes,
            sp_entity_id,
            sp_entity_categories,
            required,
            optional,
            subject_id_req,
        )
    }
}

} // verus!
