//! What the authentication methods promise.

use super::authn_broker::{
    as_strong, first_of_class, law_strongest_first_is_sorted, level_of, meets, picked, referenced,
    strongest_first, AuthnMethodView,
};
use crate::saml::request::{AuthnContextComparison, RequestedAuthnContextView};
use vstd::prelude::*;

verus! {

/// Whether the method at a place is the first that was registered for a class.
pub open spec fn stands_for(ms: Seq<AuthnMethodView>, class_ref: Seq<char>, k: int) -> bool {
    &&& 0 <= k < ms.len()
    &&& ms[k].class_ref == class_ref
    &&& forall|j: int| 0 <= j < k ==> (#[trigger] ms[j]).class_ref != class_ref
}

/// Whether no method was registered for a class.
pub open spec fn stands_nothing_for(ms: Seq<AuthnMethodView>, class_ref: Seq<char>) -> bool {
    forall|j: int| 0 <= j < ms.len() ==> (#[trigger] ms[j]).class_ref != class_ref
}

proof fn lemma_first_of_class(ms: Seq<AuthnMethodView>, class_ref: Seq<char>)
    ensures
        first_of_class(ms, class_ref) <= ms.len(),
        first_of_class(ms, class_ref) < ms.len() ==> stands_for(
            ms,
            class_ref,
            first_of_class(ms, class_ref) as int,
        ),
        first_of_class(ms, class_ref) == ms.len() ==> stands_nothing_for(ms, class_ref),
    decreases ms.len(),
{
    if ms.len() > 0 && ms[0].class_ref != class_ref {
        let rest = ms.skip(1);
        lemma_first_of_class(rest, class_ref);
        assert forall|j: int| 0 <= j < first_of_class(ms, class_ref) implies (
        #[trigger] ms[j]).class_ref != class_ref by {
            if j > 0 {
                assert(rest[j - 1] == ms[j]);
            }
        }
    }
}

/// A class is as strong as the first method that was registered for it, and has
/// no strength where there is none.
pub proof fn law_class_is_as_strong_as_its_first_method(
    ms: Seq<AuthnMethodView>,
    class_ref: Seq<char>,
    k: int,
)
    ensures
        stands_for(ms, class_ref, k) ==> level_of(ms, class_ref) == Some(ms[k].level),
        stands_nothing_for(ms, class_ref) <==> level_of(ms, class_ref) is None,
{
    lemma_first_of_class(ms, class_ref);
    let at = first_of_class(ms, class_ref) as int;
    if stands_for(ms, class_ref, k) {
        if at < k {
            assert(ms[at].class_ref == class_ref);
        }
    }
}

/// Anything meets a context where none is requested. An exact comparison is met
/// by each of the requested classes, and by level, where that is allowed, by
/// each method exactly as strong as one of them; by nothing else.
pub proof fn law_exact_is_met_by_the_class_itself(
    ms: Seq<AuthnMethodView>,
    by_level: bool,
    c: RequestedAuthnContextView,
    class_ref: Seq<char>,
    level: u32,
)
    requires
        c.comparison == AuthnContextComparison::Exact,
    ensures
        meets(ms, by_level, None, class_ref, level),
        meets(ms, by_level, Some(c), class_ref, level) <==> {
            ||| exists|i: int| 0 <= i < c.class_refs.len() && #[trigger] c.class_refs[i] == class_ref
            ||| by_level && exists|i: int, k: int|
                0 <= i < c.class_refs.len() && #[trigger] stands_for(ms, c.class_refs[i], k)
                    && ms[k].level == level
        },
{
    if by_level && exists|i: int|
        0 <= i < c.class_refs.len() && level_of(ms, #[trigger] c.class_refs[i]) == Some(level) {
        let i = choose|i: int|
            0 <= i < c.class_refs.len() && level_of(ms, #[trigger] c.class_refs[i]) == Some(level);
        lemma_first_of_class(ms, c.class_refs[i]);
        assert(stands_for(ms, c.class_refs[i], first_of_class(ms, c.class_refs[i]) as int));
    }
    if exists|i: int, k: int|
        0 <= i < c.class_refs.len() && #[trigger] stands_for(ms, c.class_refs[i], k) && ms[k].level
            == level {
        let (i, k) = choose|i: int, k: int|
            0 <= i < c.class_refs.len() && #[trigger] stands_for(ms, c.class_refs[i], k)
                && ms[k].level == level;
        law_class_is_as_strong_as_its_first_method(ms, c.class_refs[i], k);
        assert(level_of(ms, c.class_refs[i]) == Some(level));
    }
}

/// The other comparisons go by the strength of the first requested class: at
/// least as strong, at most as strong, or stronger. Nothing meets them where no
/// class is requested or none is registered for the first.
pub proof fn law_comparison_goes_by_the_first_class(
    ms: Seq<AuthnMethodView>,
    by_level: bool,
    c: RequestedAuthnContextView,
    class_ref: Seq<char>,
    level: u32,
    k: int,
)
    requires
        c.comparison != AuthnContextComparison::Exact,
    ensures
        c.class_refs.len() > 0 && stands_for(ms, c.class_refs[0], k) ==> {
            &&& c.comparison == AuthnContextComparison::Minimum ==> (meets(
                ms,
                by_level,
                Some(c),
                class_ref,
                level,
            ) <==> level >= ms[k].level)
            &&& c.comparison == AuthnContextComparison::Maximum ==> (meets(
                ms,
                by_level,
                Some(c),
                class_ref,
                level,
            ) <==> level <= ms[k].level)
            &&& c.comparison == AuthnContextComparison::Better ==> (meets(
                ms,
                by_level,
                Some(c),
                class_ref,
                level,
            ) <==> level > ms[k].level)
        },
        c.class_refs.len() == 0 || stands_nothing_for(ms, c.class_refs[0]) ==> !meets(
            ms,
            by_level,
            Some(c),
            class_ref,
            level,
        ),
{
    if c.class_refs.len() > 0 {
        law_class_is_as_strong_as_its_first_method(ms, c.class_refs[0], k);
    }
}

/// The methods that are picked are those that meet the request, all of them and
/// in the order they were registered.
pub proof fn law_every_method_that_meets_is_picked(
    ms: Seq<AuthnMethodView>,
    by_level: bool,
    requested: Option<RequestedAuthnContextView>,
    m: AuthnMethodView,
)
    ensures
        picked(ms, by_level, requested).contains(m) <==> ms.contains(m) && meets(
            ms,
            by_level,
            requested,
            m.class_ref,
            m.level,
        ),
        requested is None ==> picked(ms, by_level, requested) == ms,
{
    let pred = |x: AuthnMethodView| meets(ms, by_level, requested, x.class_ref, x.level);
    if ms.contains(m) && pred(m) {
        let i = choose|i: int| 0 <= i < ms.len() && ms[i] == m;
        ms.lemma_filter_contains(pred, i);
    }
    if ms.filter(pred).contains(m) {
        ms.lemma_filter_contains_rev(pred, m);
        let i = choose|i: int| 0 <= i < ms.filter(pred).len() && ms.filter(pred)[i] == m;
        ms.lemma_filter_pred(pred, i);
    }
    if requested is None {
        lemma_filter_all(ms, pred);
    }
}

proof fn lemma_filter_all(ms: Seq<AuthnMethodView>, pred: spec_fn(AuthnMethodView) -> bool)
    requires
        forall|m: AuthnMethodView| #[trigger] pred(m),
    ensures
        ms.filter(pred) == ms,
    decreases ms.len(),
{
    reveal(Seq::filter);
    if ms.len() > 0 {
        lemma_filter_all(ms.drop_last(), pred);
        assert(pred(ms.last()));
        assert(ms.drop_last().push(ms.last()) == ms);
    }
}

/// Methods that are equally strong keep the order they were registered in.
pub proof fn law_equals_keep_their_order(ms: Seq<AuthnMethodView>, level: u32)
    ensures
        strongest_first(ms).filter(|m: AuthnMethodView| m.level == level) == ms.filter(
            |m: AuthnMethodView| m.level == level,
        ),
    decreases ms.len(),
{
    let pred = |m: AuthnMethodView| m.level == level;
    if ms.len() > 0 {
        let front = ms.drop_last();
        let x = ms.last();
        law_equals_keep_their_order(front, level);
        law_strongest_first_is_sorted(front);
        let rest = strongest_first(front);
        let at = as_strong(rest, x.level) as int;
        lemma_as_strong(rest, x.level);
        let weaker = rest.skip(at);
        assert(rest.insert(at, x) == rest.take(at) + (seq![x] + weaker));
        assert(rest == rest.take(at) + weaker);
        Seq::filter_distributes_over_add(rest.take(at), seq![x] + weaker, pred);
        Seq::filter_distributes_over_add(seq![x], weaker, pred);
        Seq::filter_distributes_over_add(rest.take(at), weaker, pred);
        assert(ms == front + seq![x]);
        Seq::filter_distributes_over_add(front, seq![x], pred);
        reveal_with_fuel(Seq::filter, 2);
        assert(seq![x].drop_last() == Seq::<AuthnMethodView>::empty());
        if x.level == level {
            assert forall|i: int| 0 <= i < weaker.len() implies !pred(#[trigger] weaker[i]) by {
                assert(weaker[i] == rest[at + i]);
                if i > 0 {
                    assert(rest[at].level >= rest[at + i].level);
                }
            }
            weaker.lemma_all_neg_filter_empty(pred);
            assert(weaker.filter(pred) == Seq::<AuthnMethodView>::empty());
            assert(rest.filter(pred) == rest.take(at).filter(pred));
        } else {
            assert(seq![x].filter(pred) == Seq::<AuthnMethodView>::empty());
            assert(seq![x].filter(pred) + weaker.filter(pred) == weaker.filter(pred));
        }
    }
}

proof fn lemma_as_strong(ms: Seq<AuthnMethodView>, level: u32)
    ensures
        as_strong(ms, level) <= ms.len(),
        as_strong(ms, level) < ms.len() ==> ms[as_strong(ms, level) as int].level < level,
    decreases ms.len(),
{
    if ms.len() > 0 && ms[0].level >= level {
        lemma_as_strong(ms.skip(1), level);
    }
}

/// A reference leads to the first method that has it, and to none where no
/// method has it.
pub proof fn law_reference_leads_to_its_method(ms: Seq<AuthnMethodView>, reference: Seq<char>)
    ensures
        referenced(ms, reference) <= ms.len(),
        referenced(ms, reference) < ms.len() ==> ms[referenced(ms, reference) as int].reference
            == reference,
        forall|j: int|
            0 <= j < referenced(ms, reference) ==> (#[trigger] ms[j]).reference != reference,
    decreases ms.len(),
{
    if ms.len() > 0 && ms[0].reference != reference {
        let rest = ms.skip(1);
        law_reference_leads_to_its_method(rest, reference);
        assert forall|j: int| 0 <= j < referenced(ms, reference) implies (
        #[trigger] ms[j]).reference != reference by {
            if j > 0 {
                assert(rest[j - 1] == ms[j]);
            }
        }
    }
}

} // verus!
