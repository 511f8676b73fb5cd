//! What the release policy promises.

use super::entity_category::{
    allowed_by, goes_by, named_in, EntityCategoryPolicy, SubjectIdReq,
};
use super::policy::{
    asked_for, asked_openly, asked_value, by_category, by_request, by_restriction, chosen_requests,
    default_at, filtered, has_one_of, missing, released_all, released_of, requests_with, restricts,
    satisfies, service_at, unrestricted, unrestricted_openly, unrestricted_value,
    AttributeRestriction, PolicyEntry, PolicyErrorView, SignTargets,
};
use crate::saml::attribute::{AttributeView, RequestedAttributeView};
use crate::saml::metadata::{
    first_saml2, values_named, EntityAttribute, ServiceView, SpSsoDescriptor,
};
use crate::saml::time::TimeDelta;
use crate::text::texts;
use vstd::prelude::*;

verus! {

/// Whether an attribute meets a request: it has the name, and one of the values
/// that are listed where any is.
pub open spec fn is_met_by(r: RequestedAttributeView, a: AttributeView) -> bool {
    &&& a.name == r.attribute.name
    &&& r.attribute.values.len() == 0 || exists|j: int, l: int|
        0 <= j < a.values.len() && 0 <= l < r.attribute.values.len() && #[trigger] a.values[j]
            == #[trigger] r.attribute.values[l]
}

proof fn lemma_satisfies(attributes: Seq<AttributeView>, r: RequestedAttributeView)
    ensures
        satisfies(attributes, r) <==> exists|i: int|
            0 <= i < attributes.len() && is_met_by(r, #[trigger] attributes[i]),
{
    if satisfies(attributes, r) {
        let i = choose|i: int|
            0 <= i < attributes.len() && (#[trigger] attributes[i]).name == r.attribute.name && (
            r.attribute.values.len() == 0 || has_one_of(attributes[i], r.attribute.values));
        if r.attribute.values.len() > 0 {
            let a = attributes[i];
            let j = choose|j: int|
                0 <= j < a.values.len() && r.attribute.values.contains(#[trigger] a.values[j]);
            let l = choose|l: int|
                0 <= l < r.attribute.values.len() && r.attribute.values[l] == a.values[j];
            assert(a.values[j] == r.attribute.values[l]);
        }
        assert(is_met_by(r, attributes[i]));
    }
    if exists|i: int| 0 <= i < attributes.len() && is_met_by(r, #[trigger] attributes[i]) {
        let i = choose|i: int| 0 <= i < attributes.len() && is_met_by(r, #[trigger] attributes[i]);
        if r.attribute.values.len() > 0 {
            let a = attributes[i];
            let (j, l) = choose|j: int, l: int|
                0 <= j < a.values.len() && 0 <= l < r.attribute.values.len()
                    && #[trigger] a.values[j] == #[trigger] r.attribute.values[l];
            assert(r.attribute.values.contains(a.values[j]));
            assert(has_one_of(a, r.attribute.values));
        }
        assert(attributes[i].name == r.attribute.name);
    }
}

/// Nothing is missing exactly where every required attribute is met by one that
/// is released: one of its name, which has one of the values that it lists, or
/// any where it lists none.
pub proof fn law_nothing_is_missing(
    attributes: Seq<AttributeView>,
    required: Seq<RequestedAttributeView>,
)
    ensures
        missing(attributes, required) is None <==> forall|k: int|
            0 <= k < required.len() ==> exists|i: int|
                {
                    &&& 0 <= i < attributes.len()
                    &&& (#[trigger] attributes[i]).name == (
                    #[trigger] required[k]).attribute.name
                    &&& required[k].attribute.values.len() == 0 || exists|j: int, l: int|
                        0 <= j < attributes[i].values.len() && 0 <= l
                            < required[k].attribute.values.len()
                            && #[trigger] attributes[i].values[j]
                            == #[trigger] required[k].attribute.values[l]
                },
    decreases required.len(),
{
    if required.len() > 0 {
        let rest = required.skip(1);
        law_nothing_is_missing(attributes, rest);
        lemma_satisfies(attributes, required[0]);
        if missing(attributes, required) is None {
            assert forall|k: int| 0 <= k < required.len() implies exists|i: int|
                0 <= i < attributes.len() && is_met_by(
                    #[trigger] required[k],
                    #[trigger] attributes[i],
                ) by {
                if k > 0 {
                    assert(rest[k - 1] == required[k]);
                }
            }
        }
        if forall|k: int|
            0 <= k < required.len() ==> exists|i: int|
                0 <= i < attributes.len() && is_met_by(
                    #[trigger] required[k],
                    #[trigger] attributes[i],
                ) {
            assert forall|k: int| 0 <= k < rest.len() implies exists|i: int|
                0 <= i < attributes.len() && is_met_by(
                    #[trigger] rest[k],
                    #[trigger] attributes[i],
                ) by {
                assert(rest[k] == required[k + 1]);
            }
        }
    }
}

/// What is missing is told of the first required attribute that is not met:
/// that a value is missing where an attribute of its name is released, else that
/// the attribute is.
pub proof fn law_first_missing_is_told(
    attributes: Seq<AttributeView>,
    required: Seq<RequestedAttributeView>,
    k: int,
)
    requires
        0 <= k < required.len(),
        forall|i: int|
            0 <= i < attributes.len() ==> !is_met_by(required[k], #[trigger] attributes[i]),
        forall|j: int|
            0 <= j < k ==> exists|i: int|
                0 <= i < attributes.len() && is_met_by(
                    #[trigger] required[j],
                    #[trigger] attributes[i],
                ),
    ensures
        missing(attributes, required) == Some(
            if exists|i: int|
                0 <= i < attributes.len() && (#[trigger] attributes[i]).name
                    == required[k].attribute.name {
                PolicyErrorView::MissingRequiredValue(required[k].attribute.name)
            } else {
                PolicyErrorView::MissingRequiredAttribute(required[k].attribute.name)
            },
        ),
    decreases required.len(),
{
    lemma_satisfies(attributes, required[0]);
    if k > 0 {
        let rest = required.skip(1);
        assert(rest[k - 1] == required[k]);
        assert forall|j: int| 0 <= j < k - 1 implies exists|i: int|
            0 <= i < attributes.len() && is_met_by(#[trigger] rest[j], #[trigger] attributes[i]) by {
            assert(rest[j] == required[j + 1]);
        }
        law_first_missing_is_told(attributes, rest, k - 1);
    }
}

/// What a policy releases is not refused for what is missing, where every
/// required attribute is met or a missing one does not fail the request. Where
/// one is not met and that fails the request, it is.
pub proof fn law_release_fails_only_for_want(
    entry: PolicyEntry,
    attributes: Seq<AttributeView>,
    categories: Seq<Seq<char>>,
    required: Seq<RequestedAttributeView>,
    optional: Seq<RequestedAttributeView>,
    req: SubjectIdReq,
)
    ensures
        ({
            let out = released_all(entry, categories, required + optional, req, attributes);
            let all_met = forall|k: int|
                0 <= k < required.len() ==> exists|i: int|
                    0 <= i < out.len() && is_met_by(#[trigger] required[k], #[trigger] out[i]);
            let result = filtered(entry, attributes, categories, required, optional, req);
            &&& (result is Ok) <==> (!entry.fail_on_missing_requested || all_met)
            &&& result matches Ok(o) ==> o == out
            &&& result matches Err(e) ==> !(e is Misconfigured)
        }),
{
    let out = released_all(entry, categories, required + optional, req, attributes);
    law_nothing_is_missing(out, required);
    lemma_missing_is_no_misconfiguration(out, required);
}

proof fn lemma_missing_is_no_misconfiguration(
    attributes: Seq<AttributeView>,
    required: Seq<RequestedAttributeView>,
)
    ensures
        missing(attributes, required) matches Some(e) ==> !(e is Misconfigured),
    decreases required.len(),
{
    if required.len() > 0 {
        lemma_missing_is_no_misconfiguration(attributes, required.skip(1));
    }
}

/// Whether a name is an attribute's own or its friendly one.
pub open spec fn is_called(a: AttributeView, name: Seq<char>) -> bool {
    a.name == name || a.friendly_name == Some(name)
}

/// Whether entity categories let an attribute go: where there are policies, one
/// for a category that the service provider has lists it, or it is the subject
/// identifier that the service provider needs.
pub open spec fn category_lets_go(
    policies: Seq<EntityCategoryPolicy>,
    categories: Seq<Seq<char>>,
    req: SubjectIdReq,
    a: AttributeView,
) -> bool {
    ||| policies.len() == 0
    ||| req is SubjectId && a.name == "urn:oasis:names:tc:SAML:attribute:subject-id"@
    ||| req is PairwiseId && a.name == "urn:oasis:names:tc:SAML:attribute:pairwise-id"@
    ||| req is Any && a.name == "urn:oasis:names:tc:SAML:attribute:pairwise-id"@
    ||| exists|i: int, j: int|
        0 <= i < policies.len() && 0 <= j < policies[i].attributes@.len() && categories.contains(
            policies[i].category@,
        ) && is_called(a, (#[trigger] policies[i].attributes@[j])@)
}

/// Whether a request lets a value of an attribute go: nothing is requested, or
/// the attribute is, with no values or with this one.
pub open spec fn request_lets_go(
    rs: Seq<RequestedAttributeView>,
    a: AttributeView,
    v: Seq<char>,
) -> bool {
    rs.len() == 0 || exists|i: int|
        {
            &&& 0 <= i < rs.len()
            &&& (#[trigger] rs[i]).attribute.name == a.name
            &&& rs[i].attribute.values.len() == 0 || rs[i].attribute.values.contains(v)
        }
}

/// Whether restrictions let a value of an attribute go: there are none, or one
/// names the attribute, with any value or with this one.
pub open spec fn restriction_lets_go(
    restrictions: Option<Vec<AttributeRestriction>>,
    a: AttributeView,
    v: Seq<char>,
) -> bool {
    restrictions is None || exists|i: int|
        {
            &&& 0 <= i < restrictions->0@.len()
            &&& is_called(a, (#[trigger] restrictions->0@[i]).name@)
            &&& restrictions->0@[i].values is None || texts(
                restrictions->0@[i].values->0@,
            ).contains(v)
        }
}

proof fn lemma_category(
    entry: PolicyEntry,
    categories: Seq<Seq<char>>,
    req: SubjectIdReq,
    a: AttributeView,
)
    ensures
        by_category(entry, categories, req, a) == if category_lets_go(
            entry.entity_categories@,
            categories,
            req,
            a,
        ) {
            Some(a)
        } else {
            None
        },
{
    let ps = entry.entity_categories@;
    if allowed_by(ps, categories, a.name, a.friendly_name) {
        let i = choose|i: int|
            0 <= i < ps.len() && (#[trigger] ps[i]).allows(categories, a.name, a.friendly_name);
        let names = texts(ps[i].attributes@);
        let j = choose|j: int|
            0 <= j < names.len() && goes_by(a.name, a.friendly_name, #[trigger] names[j]);
        assert(is_called(a, ps[i].attributes@[j]@));
    }
    if exists|i: int, j: int|
        0 <= i < ps.len() && 0 <= j < ps[i].attributes@.len() && categories.contains(
            ps[i].category@,
        ) && is_called(a, (#[trigger] ps[i].attributes@[j])@) {
        let (i, j) = choose|i: int, j: int|
            0 <= i < ps.len() && 0 <= j < ps[i].attributes@.len() && categories.contains(
                ps[i].category@,
            ) && is_called(a, (#[trigger] ps[i].attributes@[j])@);
        assert(texts(ps[i].attributes@)[j] == ps[i].attributes@[j]@);
        assert(named_in(texts(ps[i].attributes@), a.name, a.friendly_name));
        assert(ps[i].allows(categories, a.name, a.friendly_name));
    }
}

proof fn lemma_values_left(a: AttributeView, pass: spec_fn(Seq<char>) -> bool)
    ensures
        forall|v: Seq<char>|
            #[trigger] a.values.filter(pass).contains(v) <==> a.values.contains(v) && pass(v),
    decreases a.values.len(),
{
    reveal(Seq::filter);
    if a.values.len() > 0 {
        let front = AttributeView { values: a.values.drop_last(), ..a };
        lemma_values_left(front, pass);
        let before = front.values.filter(pass);
        let after = a.values.filter(pass);
        let last = a.values.last();
        assert(after == if pass(last) {
            before.push(last)
        } else {
            before
        });
        assert forall|v: Seq<char>| #[trigger] after.contains(v) <==> a.values.contains(v) && pass(
            v,
        ) by {
            if after.contains(v) {
                let k = choose|k: int| 0 <= k < after.len() && after[k] == v;
                if k < before.len() {
                    assert(before[k] == v);
                    assert(before.contains(v));
                    let j = choose|j: int| 0 <= j < front.values.len() && front.values[j] == v;
                    assert(a.values[j] == v);
                } else {
                    assert(a.values[a.values.len() - 1] == v);
                }
            }
            if a.values.contains(v) && pass(v) {
                let k = choose|k: int| 0 <= k < a.values.len() && a.values[k] == v;
                if k < front.values.len() {
                    assert(front.values[k] == v);
                    assert(before.contains(v));
                    let j = choose|j: int| 0 <= j < before.len() && before[j] == v;
                    assert(after[j] == v);
                } else {
                    assert(after[after.len() - 1] == v);
                }
            }
        }
    }
}

proof fn lemma_request(rs: Seq<RequestedAttributeView>, a: AttributeView)
    ensures
        by_request(rs, a) matches Some(b) ==> {
            &&& b.name == a.name
            &&& b.name_format == a.name_format
            &&& b.friendly_name == a.friendly_name
            &&& forall|v: Seq<char>|
                #[trigger] b.values.contains(v) ==> a.values.contains(v) && request_lets_go(rs, a, v)
        },
        forall|v: Seq<char>|
            #[trigger] a.values.contains(v) && request_lets_go(rs, a, v) ==> by_request(rs, a) is Some
                && by_request(rs, a)->0.values.contains(v),
{
    let pass = |v: Seq<char>| asked_value(rs, a.name, v);
    lemma_values_left(a, pass);
    assert forall|v: Seq<char>| rs.len() > 0 && #[trigger] request_lets_go(rs, a, v) implies asked_openly(
        rs,
        a.name,
    ) || (asked_for(rs, a.name) && asked_value(rs, a.name, v)) by {
        let i = choose|i: int|
            {
                &&& 0 <= i < rs.len()
                &&& (#[trigger] rs[i]).attribute.name == a.name
                &&& rs[i].attribute.values.len() == 0 || rs[i].attribute.values.contains(v)
            };
        assert(rs[i].attribute.name == a.name);
    }
    assert forall|v: Seq<char>| asked_value(rs, a.name, v) implies #[trigger] request_lets_go(
        rs,
        a,
        v,
    ) by {}
    assert forall|v: Seq<char>| asked_openly(rs, a.name) implies #[trigger] request_lets_go(
        rs,
        a,
        v,
    ) by {}
    assert forall|v: Seq<char>| #[trigger] a.values.contains(v) && request_lets_go(
        rs,
        a,
        v,
    ) implies by_request(rs, a) is Some && by_request(rs, a)->0.values.contains(v) by {
        if rs.len() > 0 && !asked_openly(rs, a.name) {
            assert(pass(v));
            assert(a.values.filter(pass).contains(v));
        }
    }
    if let Some(b) = by_request(rs, a) {
        assert forall|v: Seq<char>| #[trigger] b.values.contains(v) implies a.values.contains(v)
            && request_lets_go(rs, a, v) by {
            if rs.len() > 0 && !asked_openly(rs, a.name) {
                assert(a.values.filter(pass).contains(v));
            }
        }
    }
}

proof fn lemma_restriction(entry: PolicyEntry, a: AttributeView)
    ensures
        by_restriction(entry, a) matches Some(b) ==> {
            &&& b.name == a.name
            &&& b.name_format == a.name_format
            &&& b.friendly_name == a.friendly_name
            &&& forall|v: Seq<char>|
                #[trigger] b.values.contains(v) ==> a.values.contains(v) && restriction_lets_go(
                    entry.attribute_restrictions,
                    a,
                    v,
                )
        },
        forall|v: Seq<char>|
            #[trigger] a.values.contains(v) && restriction_lets_go(
                entry.attribute_restrictions,
                a,
                v,
            ) ==> by_restriction(entry, a) is Some && by_restriction(entry, a)->0.values.contains(v),
{
    if let Some(restrictions) = entry.attribute_restrictions {
        let rs = restrictions@;
        let pass = |v: Seq<char>| unrestricted_value(rs, a, v);
        lemma_values_left(a, pass);
        assert forall|v: Seq<char>| #[trigger] restriction_lets_go(
            entry.attribute_restrictions,
            a,
            v,
        ) implies unrestricted_openly(rs, a) || (unrestricted(rs, a) && unrestricted_value(
            rs,
            a,
            v,
        )) by {
            let i = choose|i: int|
                {
                    &&& 0 <= i < rs.len()
                    &&& is_called(a, (#[trigger] rs[i]).name@)
                    &&& rs[i].values is None || texts(rs[i].values->0@).contains(v)
                };
            assert(restricts(rs[i], a));
        }
        assert forall|v: Seq<char>| unrestricted_value(rs, a, v) implies #[trigger] restriction_lets_go(
            entry.attribute_restrictions,
            a,
            v,
        ) by {
            let i = choose|i: int|
                0 <= i < rs.len() && restricts(#[trigger] rs[i], a) && (rs[i].values matches Some(
                    vs,
                ) && texts(vs@).contains(v));
            assert(is_called(a, rs[i].name@));
        }
        assert forall|v: Seq<char>| unrestricted_openly(rs, a) implies #[trigger] restriction_lets_go(
            entry.attribute_restrictions,
            a,
            v,
        ) by {
            let i = choose|i: int|
                0 <= i < rs.len() && restricts(#[trigger] rs[i], a) && rs[i].values is None;
            assert(is_called(a, rs[i].name@));
        }
        assert forall|v: Seq<char>| #[trigger] a.values.contains(v) && restriction_lets_go(
            entry.attribute_restrictions,
            a,
            v,
        ) implies by_restriction(entry, a) is Some && by_restriction(entry, a)->0.values.contains(
            v,
        ) by {
            if !unrestricted_openly(rs, a) {
                assert(pass(v));
                assert(a.values.filter(pass).contains(v));
            }
        }
        if let Some(b) = by_restriction(entry, a) {
            assert forall|v: Seq<char>| #[trigger] b.values.contains(v) implies a.values.contains(v)
                && restriction_lets_go(entry.attribute_restrictions, a, v) by {
                if !unrestricted_openly(rs, a) {
                    assert(a.values.filter(pass).contains(v));
                }
            }
        }
    }
}

/// A value of an attribute is released exactly where the entity categories let
/// the attribute go and both the requests and the restrictions let the value
/// go. What is released keeps the attribute's names.
pub proof fn law_value_is_released_exactly_where_it_may_go(
    entry: PolicyEntry,
    categories: Seq<Seq<char>>,
    rs: Seq<RequestedAttributeView>,
    req: SubjectIdReq,
    a: AttributeView,
    v: Seq<char>,
)
    ensures
        (released_of(entry, categories, rs, req, a) is Some && released_of(
            entry,
            categories,
            rs,
            req,
            a,
        )->0.values.contains(v)) <==> {
            &&& a.values.contains(v)
            &&& category_lets_go(entry.entity_categories@, categories, req, a)
            &&& request_lets_go(rs, a, v)
            &&& restriction_lets_go(entry.attribute_restrictions, a, v)
        },
        released_of(entry, categories, rs, req, a) matches Some(out) ==> {
            &&& out.name == a.name
            &&& out.name_format == a.name_format
            &&& out.friendly_name == a.friendly_name
            &&& category_lets_go(entry.entity_categories@, categories, req, a)
        },
{
    lemma_category(entry, categories, req, a);
    lemma_request(rs, a);
    if let Some(b) = by_request(rs, a) {
        lemma_restriction(entry, b);
        assert(restriction_lets_go(entry.attribute_restrictions, a, v) == restriction_lets_go(
            entry.attribute_restrictions,
            b,
            v,
        )) by {
            if let Some(restrictions) = entry.attribute_restrictions {
                assert forall|i: int| 0 <= i < restrictions@.len() implies is_called(
                    a,
                    (#[trigger] restrictions@[i]).name@,
                ) == is_called(b, restrictions@[i].name@) by {}
            }
        }
    }
}

/// An attribute goes whole, even without values, where entity categories let it
/// go, nothing is requested or it is without values, and nothing is restricted
/// or it is without values.
pub proof fn law_open_attribute_goes_whole(
    entry: PolicyEntry,
    categories: Seq<Seq<char>>,
    rs: Seq<RequestedAttributeView>,
    req: SubjectIdReq,
    a: AttributeView,
)
    requires
        category_lets_go(entry.entity_categories@, categories, req, a),
        rs.len() == 0 || exists|i: int|
            0 <= i < rs.len() && (#[trigger] rs[i]).attribute.name == a.name
                && rs[i].attribute.values.len() == 0,
        entry.attribute_restrictions is None || exists|i: int|
            0 <= i < entry.attribute_restrictions->0@.len() && is_called(
                a,
                (#[trigger] entry.attribute_restrictions->0@[i]).name@,
            ) && entry.attribute_restrictions->0@[i].values is None,
    ensures
        released_of(entry, categories, rs, req, a) == Some(a),
{
    lemma_category(entry, categories, req, a);
    if let Some(restrictions) = entry.attribute_restrictions {
        let i = choose|i: int|
            0 <= i < restrictions@.len() && is_called(a, (#[trigger] restrictions@[i]).name@)
                && restrictions@[i].values is None;
        assert(restricts(restrictions@[i], a));
    }
}

/// Attributes are released one by one, in order: what is released of two lists,
/// one after the other, is what is released of each.
pub proof fn law_release_goes_one_by_one(
    entry: PolicyEntry,
    categories: Seq<Seq<char>>,
    rs: Seq<RequestedAttributeView>,
    req: SubjectIdReq,
    first: Seq<AttributeView>,
    second: Seq<AttributeView>,
    a: AttributeView,
)
    ensures
        released_all(entry, categories, rs, req, first + second) == released_all(
            entry,
            categories,
            rs,
            req,
            first,
        ) + released_all(entry, categories, rs, req, second),
        released_all(entry, categories, rs, req, seq![a]) == match released_of(
            entry,
            categories,
            rs,
            req,
            a,
        ) {
            Some(out) => seq![out],
            None => seq![],
        },
        released_all(entry, categories, rs, req, seq![]) == Seq::<AttributeView>::empty(),
    decreases second.len(),
{
    reveal_with_fuel(released_all, 2);
    assert(seq![a].drop_last() == Seq::<AttributeView>::empty());
    if second.len() == 0 {
        assert(first + second == first);
    } else {
        let front = second.drop_last();
        law_release_goes_one_by_one(entry, categories, rs, req, first, front, a);
        assert((first + second).drop_last() == first + front);
        assert((first + second).last() == second.last());
    }
}

/// Which service is chosen: the first with the index that is given; without an
/// index, the first that is marked as the default, else the first.
pub proof fn law_service_is_chosen(services: Seq<ServiceView>, index: Option<u16>, k: int)
    ensures
        index matches Some(i) ==> {
            &&& (0 <= k < services.len() && services[k].index == i && forall|j: int|
                0 <= j < k ==> (#[trigger] services[j]).index != i) ==> chosen_requests(
                services,
                index,
            ) == Some(services[k].requested)
            &&& (forall|j: int| 0 <= j < services.len() ==> (#[trigger] services[j]).index != i)
                <==> chosen_requests(services, index) is None
        },
        index is None ==> {
            &&& (0 <= k < services.len() && services[k].is_default == Some(true) && forall|j: int|
                0 <= j < k ==> (#[trigger] services[j]).is_default != Some(true))
                ==> chosen_requests(services, index) == Some(services[k].requested)
            &&& (forall|j: int|
                0 <= j < services.len() ==> (#[trigger] services[j]).is_default != Some(true)) && services.len()
                > 0 ==> chosen_requests(services, index) == Some(services[0].requested)
            &&& services.len() == 0 ==> chosen_requests(services, index) == Some(
                Seq::<RequestedAttributeView>::empty(),
            )
        },
{
    match index {
        Some(i) => lemma_service_at(services, i),
        None => lemma_default_at(services),
    }
}

proof fn lemma_service_at(services: Seq<ServiceView>, index: u16)
    ensures
        service_at(services, index) <= services.len(),
        service_at(services, index) < services.len() ==> services[service_at(
            services,
            index,
        ) as int].index == index,
        forall|j: int|
            0 <= j < service_at(services, index) ==> (#[trigger] services[j]).index != index,
    decreases services.len(),
{
    if services.len() > 0 && services[0].index != index {
        let rest = services.skip(1);
        lemma_service_at(rest, index);
        assert forall|j: int| 0 <= j < service_at(services, index) implies (
        #[trigger] services[j]).index != index by {
            if j > 0 {
                assert(rest[j - 1] == services[j]);
            }
        }
    }
}

proof fn lemma_default_at(services: Seq<ServiceView>)
    ensures
        default_at(services) <= services.len(),
        default_at(services) < services.len() ==> services[default_at(services) as int].is_default
            == Some(true),
        forall|j: int|
            0 <= j < default_at(services) ==> (#[trigger] services[j]).is_default != Some(true),
    decreases services.len(),
{
    if services.len() > 0 && services[0].is_default != Some(true) {
        let rest = services.skip(1);
        lemma_default_at(rest);
        assert forall|j: int| 0 <= j < default_at(services) implies (
        #[trigger] services[j]).is_default != Some(true) by {
            if j > 0 {
                assert(rest[j - 1] == services[j]);
            }
        }
    }
}

/// A request is required where it is marked so, and optional where it is not:
/// the two together are all requests, each among exactly one of them, in order.
pub proof fn law_requests_are_required_or_optional(
    first: Seq<RequestedAttributeView>,
    second: Seq<RequestedAttributeView>,
    r: RequestedAttributeView,
)
    ensures
        requests_with(first + second, true) == requests_with(first, true) + requests_with(
            second,
            true,
        ),
        requests_with(first + second, false) == requests_with(first, false) + requests_with(
            second,
            false,
        ),
        r.is_required == Some(true) ==> requests_with(seq![r], true) == seq![r] && requests_with(
            seq![r],
            false,
        ).len() == 0,
        r.is_required != Some(true) ==> requests_with(seq![r], false) == seq![r] && requests_with(
            seq![r],
            true,
        ).len() == 0,
    decreases second.len(),
{
    reveal(Seq::filter);
    reveal_with_fuel(Seq::filter, 2);
    assert(seq![r].drop_last() == Seq::<RequestedAttributeView>::empty());
    assert(requests_with(Seq::empty(), true) == Seq::<RequestedAttributeView>::empty());
    assert(requests_with(Seq::empty(), false) == Seq::<RequestedAttributeView>::empty());
    if second.len() == 0 {
        assert(first + second == first);
    } else {
        let front = second.drop_last();
        law_requests_are_required_or_optional(first, front, r);
        assert((first + second).drop_last() == first + front);
        assert((first + second).last() == second.last());
    }
}

/// The subject identifier that is needed is the one that the first value names.
pub proof fn law_first_value_names_the_subject_id(values: Seq<Seq<char>>, name: Seq<char>)
    requires
        values.len() > 0,
    ensures
        values[0] == "subject-id"@ ==> (SubjectIdReq::of_values(values).needs(name) <==> name
            == "urn:oasis:names:tc:SAML:attribute:subject-id"@),
        values[0] == "pairwise-id"@ || values[0] == "any"@ ==> (SubjectIdReq::of_values(
            values,
        ).needs(name) <==> name == "urn:oasis:names:tc:SAML:attribute:pairwise-id"@),
        values[0] != "subject-id"@ && values[0] != "pairwise-id"@ && values[0] != "any"@
            ==> !SubjectIdReq::of_values(values).needs(name),
        !SubjectIdReq::of_values(Seq::empty()).needs(name),
{
    reveal_strlit("subject-id");
    reveal_strlit("pairwise-id");
    reveal_strlit("any");
    assert("subject-id"@.len() == 10);
    assert("pairwise-id"@.len() == 11);
    assert("any"@.len() == 3);
}

/// The values of entity attributes of a name are those of each attribute of the
/// name, in order, and of no other.
pub proof fn law_named_values_are_all_there(
    first: Seq<EntityAttribute>,
    second: Seq<EntityAttribute>,
    a: EntityAttribute,
    name: Seq<char>,
)
    ensures
        values_named(first + second, name) == values_named(first, name) + values_named(
            second,
            name,
        ),
        a.name@ == name ==> values_named(seq![a], name) == texts(a.values@),
        a.name@ != name ==> values_named(seq![a], name).len() == 0,
        values_named(Seq::empty(), name).len() == 0,
    decreases second.len(),
{
    reveal_with_fuel(values_named, 2);
    assert(seq![a].drop_last() == Seq::<EntityAttribute>::empty());
    assert(Seq::<Seq<char>>::empty() + texts(a.values@) == texts(a.values@));
    if second.len() == 0 {
        assert(first + second == first);
    } else {
        let front = second.drop_last();
        law_named_values_are_all_there(first, front, a, name);
        assert((first + second).drop_last() == first + front);
        assert((first + second).last() == second.last());
    }
}

/// The role that counts is the first that supports the SAML 2.0 protocol; there
/// is none exactly where no role does.
pub proof fn law_first_saml2_role_counts(roles: Seq<SpSsoDescriptor>)
    ensures
        first_saml2(roles) <= roles.len(),
        first_saml2(roles) < roles.len() ==> texts(
            roles[first_saml2(roles) as int].protocols@,
        ).contains("urn:oasis:names:tc:SAML:2.0:protocol"@),
        forall|i: int|
            0 <= i < first_saml2(roles) ==> !texts((#[trigger] roles[i]).protocols@).contains(
                "urn:oasis:names:tc:SAML:2.0:protocol"@,
            ),
    decreases roles.len(),
{
    if roles.len() > 0 && !roles[0].is_saml2() {
        let rest = roles.skip(1);
        law_first_saml2_role_counts(rest);
        assert forall|i: int| 0 <= i < first_saml2(roles) implies !texts(
            (#[trigger] roles[i]).protocols@,
        ).contains("urn:oasis:names:tc:SAML:2.0:protocol"@) by {
            if i > 0 {
                assert(rest[i - 1] == roles[i]);
            }
        }
    }
}

/// What is signed: the response where that is set; the assertion where that is
/// set, and on demand where the service provider wants it.
pub proof fn law_signing_is_as_set(sign: SignTargets, wants: bool)
    ensures
        sign.resolved(wants).sign_response <==> sign.response,
        sign.assertion ==> sign.resolved(wants).sign_assertion,
        sign.on_demand ==> sign.resolved(true).sign_assertion,
        sign.resolved(wants).sign_assertion && !sign.assertion ==> sign.on_demand && wants,
{
}

/// A session lasts as long as is set for sessions, and as long as an assertion
/// where nothing is.
pub proof fn law_session_lasts_as_set(entry: PolicyEntry, d: TimeDelta)
    ensures
        entry.session_lifetime == Some(d) ==> entry.session_span() == d,
        entry.session_lifetime is None ==> entry.session_span() == entry.lifetime,
{
}

} // verus!
