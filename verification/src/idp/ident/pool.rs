//! What the identity database promises when several writers act at once.
//!
//! A pool is a set of writes that are under way. Any of them may make the next
//! store access; a schedule says which does, and what a draw comes up with.

use super::coding::{coded, decoded, law_coded_has_no_space, law_decode_undoes_code, storable};
use super::forward::{
    decoded_all, entries, entries_in, entries_of, forward_key, lemma_keys, lemma_no_entries, listed,
    owner, reverse_key,
};
use super::laws::{
    has_content, lemma_has_content, lemma_other_key, lemma_others, lemma_persistent_in,
    lemma_with_entry, lemma_with_nothing, lemma_without_entry,
};
use super::op::{
    is_persistent_for, next, others, persistent_in, unlinking, values_of, with_entry,
    without_entry, IssueView, OpView,
};
use super::store::{lookup, Contents};
use crate::saml::constants::NAMEID_PERSISTENT;
use crate::saml::name_id::NameIdView;
use vstd::prelude::*;

verus! {

/// Whether some user's list has a NameID with this value.
pub open spec fn lists_value(m: Contents, user_id: Seq<char>, value: Seq<char>) -> bool {
    exists|i: int|
        0 <= i < entries(m, user_id).len() && decoded(#[trigger] entries(m, user_id)[i]).value
            == value
}

/// The NameID that a write is bringing into a user's list, with the user.
pub open spec fn carried(op: OpView) -> Option<(NameIdView, Seq<char>)> {
    match op {
        OpView::StoreLink { user_id, name_id } => Some((name_id, user_id)),
        OpView::AppendRead { user_id, name_id } => Some((name_id, user_id)),
        OpView::AppendSwap { user_id, name_id, .. } => Some((name_id, user_id)),
        OpView::MintRead { issue, candidate } => match candidate {
            Some(c) => Some((c, issue.user_id)),
            None => None,
        },
        OpView::MintLink { issue, candidate, .. } => Some((candidate, issue.user_id)),
        OpView::MintSwap { issue, candidate, .. } => Some((candidate, issue.user_id)),
        _ => None,
    }
}

/// Whether a write has not yet written the owner of what it carries.
pub open spec fn unlinked(op: OpView) -> bool {
    op is StoreLink || op is MintLink
}

/// Whether a write is about to remove the owner of a value.
pub open spec fn releases(op: OpView, value: Seq<char>) -> bool {
    match op {
        OpView::MintAbandon { value: v, .. } => v == value,
        OpView::ForgetUnlink { value: v } => v == value,
        OpView::ClearUnlink { values } => values.contains(value),
        _ => false,
    }
}

/// The NameID that a write is taking out of its owner's list.
pub open spec fn forgets(op: OpView) -> Option<NameIdView> {
    match op {
        OpView::ForgetFind { name_id } => Some(name_id),
        OpView::ForgetRead { name_id, .. } => Some(name_id),
        OpView::ForgetSwap { name_id, .. } => Some(name_id),
        _ => None,
    }
}

/// The owner that a write found for the NameID it is taking out.
pub open spec fn forgets_for(op: OpView) -> Option<Seq<char>> {
    match op {
        OpView::ForgetRead { user_id, .. } => Some(user_id),
        OpView::ForgetSwap { user_id, .. } => Some(user_id),
        _ => None,
    }
}

/// Whether the value is one that no list has and no write deals with.
pub open spec fn unused(m: Contents, pool: Seq<OpView>, value: Seq<char>) -> bool {
    &&& forall|u: Seq<char>| !#[trigger] lists_value(m, u, value)
    &&& forall|i: int|
        0 <= i < pool.len() ==> {
            &&& !releases(#[trigger] pool[i], value)
            &&& carried(pool[i]) matches Some((n, _)) ==> n.value != value
            &&& forgets(pool[i]) matches Some(n) ==> n.value != value
        }
}

/// Every listed NameID has its user as owner.
pub open spec fn listed_are_owned(m: Contents) -> bool {
    forall|u: Seq<char>, v: Seq<char>| #[trigger] lists_value(m, u, v) ==> owner(m, v) == Some(u)
}

/// Whether an owner is accounted for: the user has the value in the list, or a
/// write is bringing it there, or a write is about to remove the owner.
pub open spec fn accounted(m: Contents, pool: Seq<OpView>, value: Seq<char>, user_id: Seq<char>) -> bool {
    ||| lists_value(m, user_id, value)
    ||| exists|i: int|
        0 <= i < pool.len() && (releases(#[trigger] pool[i], value) || (carried(pool[i]) matches Some(
            (n, _),
        ) && n.value == value && !unlinked(pool[i])))
}

/// Whether a write carries a NameID with this value.
pub open spec fn carries(op: OpView, value: Seq<char>) -> bool {
    carried(op) matches Some((n, _)) && n.value == value
}

/// What holds of one write in a pool and one value, seen from the store.
pub open spec fn op_ok(m: Contents, op: OpView, value: Seq<char>) -> bool {
    &&& carries(op, value) ==> {
        &&& has_content((carried(op)->0).0)
        &&& forall|u: Seq<char>| !#[trigger] lists_value(m, u, value)
        &&& !unlinked(op) ==> owner(m, value) == Some((carried(op)->0).1)
    }
    &&& releases(op, value) ==> forall|u: Seq<char>| !#[trigger] lists_value(m, u, value)
    &&& forgets(op) matches Some(n) ==> (n.value == value ==> {
        &&& listed_only_as(m, value, coded(n))
        &&& forgets_for(op) matches Some(u) ==> forall|u2: Seq<char>|
            #[trigger] lists_value(m, u2, value) ==> u2 == u
    })
}

/// Whether every listed NameID with a value is stored as one and the same entry.
pub open spec fn listed_only_as(m: Contents, value: Seq<char>, entry: Seq<char>) -> bool {
    forall|u: Seq<char>, i: int|
        0 <= i < entries(m, u).len() && decoded(#[trigger] entries(m, u)[i]).value == value
            ==> entries(m, u)[i] == entry
}

/// What holds between two writes in a pool: where one carries the value, the
/// other neither carries nor removes it.
pub open spec fn apart(a: OpView, b: OpView, value: Seq<char>) -> bool {
    carries(a, value) ==> {
        &&& !carries(b, value)
        &&& !releases(b, value)
        &&& forgets(b) matches Some(n) ==> n.value != value
    }
}

/// The lists and the owner of a value agree, but for what the writes in the pool
/// are still to do.
pub open spec fn consistent_on(m: Contents, pool: Seq<OpView>, value: Seq<char>) -> bool {
    &&& forall|u: Seq<char>| #[trigger] lists_value(m, u, value) ==> owner(m, value) == Some(u)
    &&& owner(m, value) matches Some(u) ==> accounted(m, pool, value, u)
    &&& forall|i: int| 0 <= i < pool.len() ==> op_ok(m, #[trigger] pool[i], value)
    &&& forall|i: int, j: int|
        0 <= i < pool.len() && 0 <= j < pool.len() && i != j ==> apart(
            #[trigger] pool[i],
            #[trigger] pool[j],
            value,
        )
}

/// The lists and the owners agree, but for what the writes in the pool are
/// still to do.
pub open spec fn consistent(m: Contents, pool: Seq<OpView>) -> bool {
    forall|value: Seq<char>| #[trigger] consistent_on(m, pool, value)
}

/// The lists and the owner of a value agree: a user has it in the list exactly
/// where the user owns it.
pub open spec fn settled_value(m: Contents, value: Seq<char>) -> bool {
    forall|u: Seq<char>| (owner(m, value) == Some(u)) <==> #[trigger] lists_value(m, u, value)
}

/// The lists and the owners agree: a user owns exactly the values in the
/// user's list.
pub open spec fn settled_state(m: Contents) -> bool {
    forall|value: Seq<char>| #[trigger] settled_value(m, value)
}

/// Whether a write draws a value at its next access.
pub open spec fn draws(op: OpView) -> bool {
    op is IssueDraw || op is MintDraw
}

/// Between writes, the lists and the owner of a value agree; a pool without
/// writes under way leaves no owner without a listed NameID, and none the other
/// way round.
pub proof fn law_quiescent_value_is_settled(m: Contents, pool: Seq<OpView>, value: Seq<char>)
    requires
        forall|i: int| 0 <= i < pool.len() ==> #[trigger] pool[i] is Done,
    ensures
        consistent_on(m, pool, value) <==> settled_value(m, value),
{
    if consistent_on(m, pool, value) {
        assert forall|u: Seq<char>| (owner(m, value) == Some(u)) <==> #[trigger] lists_value(
            m,
            u,
            value,
        ) by {
            if owner(m, value) == Some(u) {
                assert(accounted(m, pool, value, u));
            }
        }
    }
    if settled_value(m, value) {
        if let Some(u) = owner(m, value) {
            assert(lists_value(m, u, value));
        }
    }
}

/// The same of all values.
pub proof fn law_quiescent_pool_is_settled(m: Contents, pool: Seq<OpView>)
    requires
        forall|i: int| 0 <= i < pool.len() ==> #[trigger] pool[i] is Done,
    ensures
        consistent(m, pool) <==> settled_state(m),
{
    assert forall|value: Seq<char>| #[trigger] consistent_on(m, pool, value) <==> settled_value(
        m,
        value,
    ) by {
        law_quiescent_value_is_settled(m, pool, value);
    }
    if consistent(m, pool) {
        assert forall|value: Seq<char>| #[trigger] settled_value(m, value) by {
            assert(consistent_on(m, pool, value));
        }
    }
    if settled_state(m) {
        assert forall|value: Seq<char>| #[trigger] consistent_on(m, pool, value) by {
            assert(settled_value(m, value));
        }
    }
}

/// What a write has in its care of a value: the owner that it is to remove, or
/// that it wrote for what it is bringing in.
pub open spec fn answers_for(op: OpView, value: Seq<char>) -> bool {
    releases(op, value) || (carries(op, value) && !unlinked(op))
}

/// One access of a write keeps a value consistent, if what it does to the lists
/// and the owner of the value is its own to do, and what is left of it fits in.
proof fn lemma_value_step(
    m: Contents,
    m2: Contents,
    pool: Seq<OpView>,
    i: int,
    op2: OpView,
    v: Seq<char>,
)
    requires
        consistent_on(m, pool, v),
        0 <= i < pool.len(),
        // entries with the value were there before, or are what was carried
        forall|u: Seq<char>, j: int|
            0 <= j < entries(m2, u).len() && decoded(#[trigger] entries(m2, u)[j]).value == v
                ==> entries(m, u).contains(entries(m2, u)[j]) || (carries(pool[i], v) && !unlinked(
                pool[i],
            ) && (carried(pool[i])->0).1 == u && entries(m2, u)[j] == coded((carried(pool[i])->0).0)),
        // those that go are released
        forall|u: Seq<char>|
            #[trigger] lists_value(m, u, v) ==> lists_value(m2, u, v) || releases(op2, v),
        // the owner stays, is removed as announced, or is written
        ({
            ||| owner(m2, v) == owner(m, v)
            ||| owner(m2, v) is None && releases(pool[i], v)
            ||| carries(pool[i], v) && unlinked(pool[i]) && owner(m2, v) == Some(
                (carried(pool[i])->0).1,
            ) && answers_for(op2, v)
        }),
        // nothing is forgotten of what the write answers for
        answers_for(pool[i], v) ==> {
            ||| answers_for(op2, v)
            ||| owner(m2, v) is None
            ||| lists_value(m2, owner(m2, v)->0, v)
        },
        op_ok(m2, op2, v),
        forall|j: int|
            0 <= j < pool.len() && j != i ==> apart(op2, #[trigger] pool[j], v) && apart(
                pool[j],
                op2,
                v,
            ),
    ensures
        consistent_on(m2, pool.update(i, op2), v),
{
    let pool2 = pool.update(i, op2);
    assert(op_ok(m, pool[i], v));
    assert forall|u: Seq<char>| #[trigger] lists_value(m2, u, v) implies lists_value(m, u, v) || (
    carries(pool[i], v) && !unlinked(pool[i]) && (carried(pool[i])->0).1 == u) by {
        let j = choose|j: int|
            0 <= j < entries(m2, u).len() && decoded(#[trigger] entries(m2, u)[j]).value == v;
        let e = entries(m2, u)[j];
        if entries(m, u).contains(e) {
            let k = choose|k: int| 0 <= k < entries(m, u).len() && entries(m, u)[k] == e;
            assert(decoded(entries(m, u)[k]).value == v);
        }
    }
    if let Some(u) = owner(m2, v) {
        if answers_for(op2, v) {
            assert(releases(pool2[i], v) || (carried(pool2[i]) matches Some((n, _)) && n.value == v
                && !unlinked(pool2[i])));
        } else if owner(m2, v) == owner(m, v) && !lists_value(m2, u, v) {
            assert(accounted(m, pool, v, u));
            assert(!lists_value(m, u, v));
            let k = choose|k: int|
                0 <= k < pool.len() && (releases(#[trigger] pool[k], v) || (carried(
                    pool[k],
                ) matches Some((n, _)) && n.value == v && !unlinked(pool[k])));
            assert(answers_for(pool[k], v));
            assert(k != i);
            assert(pool2[k] == pool[k]);
        }
        assert(accounted(m2, pool2, v, u));
    }
    assert forall|k: int| 0 <= k < pool2.len() implies op_ok(m2, #[trigger] pool2[k], v) by {
        if k != i {
            assert(pool2[k] == pool[k]);
            assert(op_ok(m, pool[k], v));
            assert(apart(pool[i], pool[k], v) && apart(pool[k], pool[i], v));
            if let Some(n2) = forgets(pool[k]) {
                if n2.value == v {
                    assert forall|u: Seq<char>, j: int|
                        0 <= j < entries(m2, u).len() && decoded(
                            #[trigger] entries(m2, u)[j],
                        ).value == v implies entries(m2, u)[j] == coded(n2) by {
                        let e = entries(m2, u)[j];
                        assert(entries(m, u).contains(e));
                        let x = choose|x: int| 0 <= x < entries(m, u).len() && entries(m, u)[x]
                            == e;
                        assert(decoded(entries(m, u)[x]).value == v);
                    }
                }
            }
        }
    }
    assert forall|a: int, b: int|
        0 <= a < pool2.len() && 0 <= b < pool2.len() && a != b implies apart(
        #[trigger] pool2[a],
        #[trigger] pool2[b],
        v,
    ) by {
        assert(apart(pool[a], pool[b], v));
    }
}

/// A write that leaves the store as it is keeps a value consistent, if what is
/// left of it fits in.
proof fn lemma_quiet_step(m: Contents, pool: Seq<OpView>, i: int, op2: OpView, v: Seq<char>)
    requires
        consistent_on(m, pool, v),
        0 <= i < pool.len(),
        answers_for(pool[i], v) ==> answers_for(op2, v) || owner(m, v) is None || lists_value(
            m,
            owner(m, v)->0,
            v,
        ),
        op_ok(m, op2, v),
        forall|j: int|
            0 <= j < pool.len() && j != i ==> apart(op2, #[trigger] pool[j], v) && apart(
                pool[j],
                op2,
                v,
            ),
    ensures
        consistent_on(m, pool.update(i, op2), v),
{
    assert forall|u: Seq<char>, j: int| 0 <= j < entries(m, u).len() implies entries(
        m,
        u,
    ).contains(#[trigger] entries(m, u)[j]) by {}
    lemma_value_step(m, m, pool, i, op2, v);
}

pub(crate) proof fn lemma_append_lists(m: Contents, user_id: Seq<char>, n: NameIdView)
    ensures
        ({
            let m2 = m.insert(
                forward_key(user_id),
                with_entry(lookup(m, forward_key(user_id)), coded(n)),
            );
            &&& entries(m2, user_id) == if has_content(n) {
                entries(m, user_id).push(coded(n))
            } else {
                entries(m, user_id)
            }
            &&& forall|u: Seq<char>|
                u != user_id ==> #[trigger] entries(m2, u) == entries(m, u)
            &&& forall|u: Seq<char>, v: Seq<char>|
                #[trigger] lists_value(m2, u, v) <==> (lists_value(m, u, v) || (has_content(n) && u
                    == user_id && v == n.value))
            &&& forall|v: Seq<char>| #[trigger] owner(m2, v) == owner(m, v)
        }),
{
    let seen = lookup(m, forward_key(user_id));
    let m2 = m.insert(forward_key(user_id), with_entry(seen, coded(n)));
    lemma_keys();
    law_coded_has_no_space(n);
    law_decode_undoes_code(n);
    let es = entries(m, user_id);
    if has_content(n) {
        lemma_with_entry(seen, coded(n));
    } else {
        lemma_with_nothing(seen);
        assert(coded(n) == Seq::<char>::empty());
    }
    assert forall|u: Seq<char>, v: Seq<char>| #[trigger] lists_value(m2, u, v) <==> (lists_value(
        m,
        u,
        v,
    ) || (has_content(n) && u == user_id && v == n.value)) by {
        if u == user_id && has_content(n) {
            if lists_value(m, u, v) {
                let k = choose|k: int|
                    0 <= k < es.len() && decoded(#[trigger] entries(m, u)[k]).value == v;
                assert(entries(m2, u)[k] == es[k]);
            }
            assert(entries(m2, u)[es.len() as int] == coded(n));
            if lists_value(m2, u, v) {
                let k = choose|k: int|
                    0 <= k < entries(m2, u).len() && decoded(#[trigger] entries(m2, u)[k]).value
                        == v;
                if k < es.len() {
                    assert(entries(m, u)[k] == entries(m2, u)[k]);
                }
            }
        } else {
            assert(entries(m2, u) == entries(m, u));
        }
    }
}

/// Swapping what is carried into the list keeps every value consistent.
proof fn lemma_append_step(
    m: Contents,
    pool: Seq<OpView>,
    i: int,
    n: NameIdView,
    user_id: Seq<char>,
    v: Seq<char>,
)
    requires
        consistent_on(m, pool, v),
        0 <= i < pool.len(),
        carried(pool[i]) == Some((n, user_id)),
        !unlinked(pool[i]),
        forall|value: Seq<char>| !#[trigger] releases(pool[i], value),
    ensures
        consistent_on(
            m.insert(
                forward_key(user_id),
                with_entry(lookup(m, forward_key(user_id)), coded(n)),
            ),
            pool.update(i, OpView::Done { result: Some(n) }),
            v,
        ),
{
    let m2 = m.insert(
        forward_key(user_id),
        with_entry(lookup(m, forward_key(user_id)), coded(n)),
    );
    let op2 = OpView::Done { result: Some(n) };
    assert(op_ok(m, pool[i], v));
    lemma_append_lists(m, user_id, n);
    law_decode_undoes_code(n);
    assert forall|u: Seq<char>, j: int|
        0 <= j < entries(m2, u).len() && decoded(#[trigger] entries(m2, u)[j]).value
            == v implies entries(m, u).contains(entries(m2, u)[j]) || (carries(pool[i], v)
        && (carried(pool[i])->0).1 == u && entries(m2, u)[j] == coded(n)) by {
        if u == user_id && j == entries(m, u).len() {
            assert(entries(m2, u)[j] == coded(n));
        } else {
            assert(entries(m2, u)[j] == entries(m, u)[j]);
        }
    }
    lemma_value_step(m, m2, pool, i, op2, v);
}

/// Writing the owner of what is carried keeps every value consistent.
proof fn lemma_link_step(
    m: Contents,
    pool: Seq<OpView>,
    i: int,
    op2: OpView,
    n: NameIdView,
    user_id: Seq<char>,
    v: Seq<char>,
)
    requires
        consistent_on(m, pool, v),
        0 <= i < pool.len(),
        carried(pool[i]) == Some((n, user_id)),
        unlinked(pool[i]),
        carried(op2) == carried(pool[i]),
        !unlinked(op2),
        forgets(op2) is None,
        forall|value: Seq<char>|
            !#[trigger] releases(op2, value) && !releases(pool[i], value),
    ensures
        consistent_on(m.insert(reverse_key(n.value), user_id), pool.update(i, op2), v),
{
    let m2 = m.insert(reverse_key(n.value), user_id);
    lemma_keys();
    lemma_same_lists(m, m2, v);
    assert(op_ok(m, pool[i], v));
    assert forall|j: int| 0 <= j < pool.len() && j != i implies apart(
        op2,
        #[trigger] pool[j],
        v,
    ) && apart(pool[j], op2, v) by {
        assert(apart(pool[i], pool[j], v) && apart(pool[j], pool[i], v));
    }
    lemma_value_step(m, m2, pool, i, op2, v);
}

/// Where no list changes, the same values are listed.
proof fn lemma_same_lists(m: Contents, m2: Contents, v: Seq<char>)
    requires
        forall|u: Seq<char>| #[trigger] entries(m2, u) == entries(m, u),
    ensures
        forall|u: Seq<char>| #[trigger] lists_value(m2, u, v) <==> lists_value(m, u, v),
        forall|u: Seq<char>, j: int|
            0 <= j < entries(m2, u).len() ==> entries(m, u).contains(#[trigger] entries(m2, u)[j]),
{
    assert forall|u: Seq<char>| #[trigger] lists_value(m2, u, v) <==> lists_value(m, u, v) by {
        assert(entries(m2, u) == entries(m, u));
    }
    assert forall|u: Seq<char>, j: int| 0 <= j < entries(m2, u).len() implies entries(
        m,
        u,
    ).contains(#[trigger] entries(m2, u)[j]) by {
        assert(entries(m2, u) == entries(m, u));
    }
}

/// Removing an owner as announced keeps every value consistent.
proof fn lemma_release_step(
    m: Contents,
    pool: Seq<OpView>,
    i: int,
    op2: OpView,
    value: Seq<char>,
    v: Seq<char>,
)
    requires
        consistent_on(m, pool, v),
        0 <= i < pool.len(),
        carried(pool[i]) is None,
        releases(pool[i], value),
        carried(op2) is None,
        forgets(op2) is None,
        forall|x: Seq<char>| #[trigger] releases(op2, x) ==> releases(pool[i], x),
        forall|x: Seq<char>| releases(pool[i], x) && x != value ==> #[trigger] releases(op2, x),
    ensures
        consistent_on(m.remove(reverse_key(value)), pool.update(i, op2), v),
{
    let m2 = m.remove(reverse_key(value));
    lemma_keys();
    lemma_same_lists(m, m2, v);
    assert(op_ok(m, pool[i], v));
    assert forall|j: int| 0 <= j < pool.len() && j != i implies apart(
        op2,
        #[trigger] pool[j],
        v,
    ) && apart(pool[j], op2, v) by {
        assert(apart(pool[j], pool[i], v));
    }
    lemma_value_step(m, m2, pool, i, op2, v);
}

/// Swapping a NameID out of its owner's list keeps every value consistent.
proof fn lemma_forget_step(
    m: Contents,
    pool: Seq<OpView>,
    i: int,
    user_id: Seq<char>,
    n: NameIdView,
    seen: Seq<char>,
    v: Seq<char>,
)
    requires
        consistent_on(m, pool, v),
        0 <= i < pool.len(),
        pool[i] == (OpView::ForgetSwap { user_id, name_id: n, seen }),
        lookup(m, forward_key(user_id)) == Some(seen),
    ensures
        consistent_on(
            m.insert(forward_key(user_id), without_entry(seen, coded(n))),
            pool.update(i, OpView::ForgetUnlink { value: n.value }),
            v,
        ),
{
    let m2 = m.insert(forward_key(user_id), without_entry(seen, coded(n)));
    let op2 = OpView::ForgetUnlink { value: n.value };
    lemma_keys();
    law_decode_undoes_code(n);
    lemma_without_entry(seen, coded(n));
    lemma_others(entries_in(seen), coded(n));
    assert(op_ok(m, pool[i], v));
    let es = entries(m, user_id);
    let es2 = entries(m2, user_id);
    assert(es2 == others(es, coded(n)));
    assert forall|u: Seq<char>, j: int| 0 <= j < entries(m2, u).len() implies entries(
        m,
        u,
    ).contains(#[trigger] entries(m2, u)[j]) by {
        if u == user_id {
            assert(es2.contains(es2[j]));
        } else {
            assert(entries(m2, u) == entries(m, u));
        }
    }
    assert forall|u: Seq<char>| #[trigger] lists_value(m, u, v) implies lists_value(m2, u, v)
        || releases(op2, v) by {
        let k = choose|k: int|
            0 <= k < entries(m, u).len() && decoded(#[trigger] entries(m, u)[k]).value == v;
        if u == user_id && v != n.value {
            assert(es[k] != coded(n));
            assert(es.contains(es[k]));
            assert(es2.contains(es[k]));
            let j = choose|j: int| 0 <= j < es2.len() && es2[j] == es[k];
            assert(decoded(entries(m2, u)[j]).value == v);
        } else if u != user_id {
            assert(entries(m2, u) == entries(m, u));
            assert(decoded(entries(m2, u)[k]).value == v);
        }
    }
    if v == n.value {
        assert forall|u: Seq<char>| !#[trigger] lists_value(m2, u, v) by {
            if lists_value(m2, u, v) {
                let j = choose|j: int|
                    0 <= j < entries(m2, u).len() && decoded(#[trigger] entries(m2, u)[j]).value
                        == v;
                let e = entries(m2, u)[j];
                assert(entries(m, u).contains(e));
                let k = choose|k: int| 0 <= k < entries(m, u).len() && entries(m, u)[k] == e;
                assert(decoded(entries(m, u)[k]).value == v);
                assert(entries(m, u)[k] == coded(n));
                assert(lists_value(m, u, v));
                assert(u == user_id);
                assert(es2.contains(coded(n)));
            }
        }
    }
    assert forall|j: int| 0 <= j < pool.len() && j != i implies apart(
        op2,
        #[trigger] pool[j],
        v,
    ) && apart(pool[j], op2, v) by {
        assert(apart(pool[j], pool[i], v));
    }
    lemma_value_step(m, m2, pool, i, op2, v);
}

/// Swapping a user's list for the empty one keeps every value consistent.
proof fn lemma_clear_step(
    m: Contents,
    pool: Seq<OpView>,
    i: int,
    user_id: Seq<char>,
    seen: Seq<char>,
    v: Seq<char>,
)
    requires
        consistent_on(m, pool, v),
        0 <= i < pool.len(),
        pool[i] == (OpView::ClearSwap { user_id, seen }),
        lookup(m, forward_key(user_id)) == Some(seen),
    ensures
        consistent_on(
            m.insert(forward_key(user_id), Seq::empty()),
            pool.update(i, unlinking(values_of(entries_in(seen)))),
            v,
        ),
{
    let m2 = m.insert(forward_key(user_id), Seq::empty());
    let values = values_of(entries_in(seen));
    let op2 = unlinking(values);
    lemma_keys();
    lemma_no_entries();
    assert(entries(m2, user_id) == Seq::<Seq<char>>::empty());
    assert forall|u: Seq<char>| #[trigger] lists_value(m, u, v) implies lists_value(m2, u, v)
        || releases(op2, v) by {
        let k = choose|k: int|
            0 <= k < entries(m, u).len() && decoded(#[trigger] entries(m, u)[k]).value == v;
        if u == user_id {
            assert(values[k] == v);
            assert(values.contains(v));
        } else {
            assert(entries(m2, u) == entries(m, u));
            assert(decoded(entries(m2, u)[k]).value == v);
        }
    }
    if releases(op2, v) {
        let k = choose|k: int| 0 <= k < values.len() && values[k] == v;
        assert(decoded(entries(m, user_id)[k]).value == v);
        assert(lists_value(m, user_id, v));
    }
    assert forall|u: Seq<char>| releases(op2, v) implies !#[trigger] lists_value(m2, u, v) by {
        if u != user_id && lists_value(m2, u, v) {
            assert(entries(m2, u) == entries(m, u));
            assert(lists_value(m, u, v));
        }
    }
    assert forall|j: int| 0 <= j < pool.len() && j != i implies apart(
        op2,
        #[trigger] pool[j],
        v,
    ) && apart(pool[j], op2, v) by {
        assert(op_ok(m, pool[j], v));
    }
    assert forall|u: Seq<char>, j: int| 0 <= j < entries(m2, u).len() implies entries(
        m,
        u,
    ).contains(#[trigger] entries(m2, u)[j]) by {
        if u != user_id {
            assert(entries(m2, u) == entries(m, u));
        }
    }
    lemma_value_step(m, m2, pool, i, op2, v);
}

/// Any write in a pool may make the next access: a value that is consistent
/// stays so. Only a draw that comes up with that very value must find it unused.
pub proof fn law_any_step_keeps_a_value(
    m: Contents,
    pool: Seq<OpView>,
    i: int,
    drawn: Seq<char>,
    v: Seq<char>,
)
    requires
        consistent_on(m, pool, v),
        0 <= i < pool.len(),
        draws(pool[i]) && drawn == v ==> v.len() > 0 && unused(m, pool, v),
    ensures
        consistent_on(
            next(pool[i], m, drawn).1,
            pool.update(i, next(pool[i], m, drawn).0),
            v,
        ),
{
    let op = pool[i];
    let (op2, m2) = next(op, m, drawn);
    assert(op_ok(m, op, v));
    assert forall|j: int| 0 <= j < pool.len() && j != i implies apart(op, #[trigger] pool[j], v)
        && apart(pool[j], op, v) by {}
    match op {
        OpView::IssueDraw(issue) => {
            if drawn == v {
                lemma_has_content(issue.name_id(drawn));
            }
            lemma_quiet_step(m, pool, i, op2, v);
        },
        OpView::MintDraw { issue, .. } => {
            if drawn == v {
                lemma_has_content(issue.name_id(drawn));
            }
            lemma_quiet_step(m, pool, i, op2, v);
        },
        OpView::StoreLink { user_id, name_id } => {
            lemma_link_step(m, pool, i, op2, name_id, user_id, v);
        },
        OpView::MintLink { issue, candidate, .. } => {
            lemma_link_step(m, pool, i, op2, candidate, issue.user_id, v);
        },
        OpView::AppendRead { user_id, name_id } => {
            let es = entries(m, user_id);
            law_decode_undoes_code(name_id);
            if es.contains(coded(name_id)) {
                let k = choose|k: int| 0 <= k < es.len() && es[k] == coded(name_id);
                assert(decoded(entries(m, user_id)[k]).value == name_id.value);
                assert(lists_value(m, user_id, name_id.value));
            }
            lemma_quiet_step(m, pool, i, op2, v);
        },
        OpView::AppendSwap { user_id, name_id, seen } => {
            if lookup(m, forward_key(user_id)) == seen {
                lemma_append_step(m, pool, i, name_id, user_id, v);
            } else {
                lemma_quiet_step(m, pool, i, op2, v);
            }
        },
        OpView::MintSwap { issue, seen, candidate } => {
            if lookup(m, forward_key(issue.user_id)) == seen {
                lemma_append_step(m, pool, i, candidate, issue.user_id, v);
            } else {
                lemma_quiet_step(m, pool, i, op2, v);
            }
        },
        OpView::MintRead { .. } => {
            lemma_quiet_step(m, pool, i, op2, v);
        },
        OpView::MintAbandon { value, .. } => {
            lemma_release_step(m, pool, i, op2, value, v);
        },
        OpView::ForgetFind { .. } => {
            lemma_quiet_step(m, pool, i, op2, v);
        },
        OpView::ForgetRead { user_id, name_id } => {
            if op2 is ForgetUnlink && name_id.value == v {
                assert forall|u: Seq<char>| !#[trigger] lists_value(m, u, v) by {
                    if lists_value(m, u, v) {
                        let k = choose|k: int|
                            0 <= k < entries(m, u).len() && decoded(
                                #[trigger] entries(m, u)[k],
                            ).value == v;
                        assert(entries(m, u)[k] == coded(name_id));
                        assert(entries(m, user_id).contains(coded(name_id)));
                    }
                }
            }
            lemma_quiet_step(m, pool, i, op2, v);
        },
        OpView::ForgetSwap { user_id, name_id, seen } => {
            if lookup(m, forward_key(user_id)) == Some(seen) {
                lemma_forget_step(m, pool, i, user_id, name_id, seen, v);
            } else {
                lemma_quiet_step(m, pool, i, op2, v);
            }
        },
        OpView::ForgetUnlink { value } => {
            lemma_release_step(m, pool, i, op2, value, v);
        },
        OpView::ClearRead { .. } => {
            lemma_quiet_step(m, pool, i, op2, v);
        },
        OpView::ClearSwap { user_id, seen } => {
            if lookup(m, forward_key(user_id)) == Some(seen) {
                lemma_clear_step(m, pool, i, user_id, seen, v);
            } else {
                lemma_quiet_step(m, pool, i, op2, v);
            }
        },
        OpView::ClearUnlink { values } => {
            if values.len() == 0 {
                lemma_quiet_step(m, pool, i, op2, v);
            } else {
                let rest = values.skip(1);
                assert(values.contains(values[0]));
                assert forall|x: Seq<char>| #[trigger] releases(op2, x) implies releases(op, x) by {
                    let k = choose|k: int| 0 <= k < rest.len() && rest[k] == x;
                    assert(values[k + 1] == x);
                }
                assert forall|x: Seq<char>|
                    releases(op, x) && x != values[0] implies #[trigger] releases(op2, x) by {
                    let k = choose|k: int| 0 <= k < values.len() && values[k] == x;
                    assert(rest[k - 1] == x);
                }
                lemma_release_step(m, pool, i, op2, values[0], v);
            }
        },
        OpView::Done { .. } => {
            lemma_quiet_step(m, pool, i, op2, v);
        },
    }
}

/// Any write in a consistent pool may make the next access: the pool stays
/// consistent. A draw must come up with a value that is not in use.
pub proof fn law_any_step_keeps_consistency(
    m: Contents,
    pool: Seq<OpView>,
    i: int,
    drawn: Seq<char>,
)
    requires
        consistent(m, pool),
        0 <= i < pool.len(),
        draws(pool[i]) ==> drawn.len() > 0 && unused(m, pool, drawn),
    ensures
        consistent(next(pool[i], m, drawn).1, pool.update(i, next(pool[i], m, drawn).0)),
{
    let (op2, m2) = next(pool[i], m, drawn);
    assert forall|v: Seq<char>| #[trigger] consistent_on(m2, pool.update(i, op2), v) by {
        assert(consistent_on(m, pool, v));
        law_any_step_keeps_a_value(m, pool, i, drawn, v);
    }
}

/// Whether a write may start next to those under way. Issuing NameIDs and
/// forgetting a user may always start. Storing a NameID may start if its value
/// is not in use, and forgetting one if it is the only listed one with its
/// value and no write is bringing it in.
pub open spec fn may_start(m: Contents, pool: Seq<OpView>, op: OpView) -> bool {
    match op {
        OpView::IssueDraw(_) => true,
        OpView::MintRead { candidate, .. } => candidate is None,
        OpView::ClearRead { .. } => true,
        OpView::StoreLink { name_id, .. } => has_content(name_id) && unused(m, pool, name_id.value),
        OpView::ForgetFind { name_id } => {
            &&& listed_only_as(m, name_id.value, coded(name_id))
            &&& forall|i: int|
                0 <= i < pool.len() ==> !carries(#[trigger] pool[i], name_id.value)
        },
        _ => false,
    }
}

/// A write that may start keeps every value consistent.
pub proof fn law_start_keeps_a_value(m: Contents, pool: Seq<OpView>, op: OpView, v: Seq<char>)
    requires
        consistent_on(m, pool, v),
        may_start(m, pool, op),
    ensures
        consistent_on(m, pool.push(op), v),
{
    let pool2 = pool.push(op);
    if let Some(u) = owner(m, v) {
        assert(accounted(m, pool, v, u));
        if !lists_value(m, u, v) {
            let k = choose|k: int|
                0 <= k < pool.len() && (releases(#[trigger] pool[k], v) || (carried(
                    pool[k],
                ) matches Some((n, _)) && n.value == v && !unlinked(pool[k])));
            assert(pool2[k] == pool[k]);
        }
    }
    assert forall|a: int, b: int|
        0 <= a < pool2.len() && 0 <= b < pool2.len() && a != b implies apart(
        #[trigger] pool2[a],
        #[trigger] pool2[b],
        v,
    ) by {
        if a < pool.len() && b < pool.len() {
            assert(apart(pool[a], pool[b], v));
        } else if b < pool.len() {
            assert(pool2[b] == pool[b]);
        } else {
            assert(pool2[a] == pool[a]);
        }
    }
}

/// A write that may start keeps the pool consistent.
pub proof fn law_start_keeps_consistency(m: Contents, pool: Seq<OpView>, op: OpView)
    requires
        consistent(m, pool),
        may_start(m, pool, op),
    ensures
        consistent(m, pool.push(op)),
{
    assert forall|v: Seq<char>| #[trigger] consistent_on(m, pool.push(op), v) by {
        assert(consistent_on(m, pool, v));
        law_start_keeps_a_value(m, pool, op, v);
    }
}

/// What a store holds and which writes are left after the accesses of a
/// schedule: each names the write that makes it and the value a draw comes up
/// with.
pub open spec fn after(m: Contents, pool: Seq<OpView>, schedule: Seq<(int, Seq<char>)>) -> (
    Contents,
    Seq<OpView>,
)
    decreases schedule.len(),
{
    if schedule.len() == 0 {
        (m, pool)
    } else {
        let (m1, pool1) = after(m, pool, schedule.drop_last());
        let (i, drawn) = schedule.last();
        (next(pool1[i], m1, drawn).1, pool1.update(i, next(pool1[i], m1, drawn).0))
    }
}

/// Whether a schedule names writes of the pool only, and every draw comes up
/// with a value that is not in use.
pub open spec fn fair_draws(m: Contents, pool: Seq<OpView>, schedule: Seq<(int, Seq<char>)>) -> bool
    decreases schedule.len(),
{
    schedule.len() > 0 ==> {
        let (m1, pool1) = after(m, pool, schedule.drop_last());
        let (i, drawn) = schedule.last();
        &&& fair_draws(m, pool, schedule.drop_last())
        &&& 0 <= i < pool.len()
        &&& draws(pool1[i]) ==> drawn.len() > 0 && unused(m1, pool1, drawn)
    }
}

/// Whether a schedule names writes of the pool only.
pub open spec fn is_schedule(pool: Seq<OpView>, schedule: Seq<(int, Seq<char>)>) -> bool {
    forall|k: int| 0 <= k < schedule.len() ==> 0 <= (#[trigger] schedule[k]).0 < pool.len()
}

/// Whether every draw of a schedule that comes up with a value finds it not in
/// use. An empty one is none to come up with.
pub open spec fn finds_unused(
    m: Contents,
    pool: Seq<OpView>,
    schedule: Seq<(int, Seq<char>)>,
    value: Seq<char>,
) -> bool
    decreases schedule.len(),
{
    schedule.len() > 0 ==> {
        let (m1, pool1) = after(m, pool, schedule.drop_last());
        let (i, drawn) = schedule.last();
        &&& finds_unused(m, pool, schedule.drop_last(), value)
        &&& draws(pool1[i]) && drawn == value ==> value.len() > 0 && unused(m1, pool1, value)
    }
}

/// Where no draw comes up with a value in use, whatever value one comes up with
/// is not in use.
proof fn lemma_fair_draws(
    m: Contents,
    pool: Seq<OpView>,
    schedule: Seq<(int, Seq<char>)>,
    value: Seq<char>,
)
    requires
        fair_draws(m, pool, schedule),
    ensures
        is_schedule(pool, schedule),
        finds_unused(m, pool, schedule, value),
    decreases schedule.len(),
{
    if schedule.len() > 0 {
        lemma_fair_draws(m, pool, schedule.drop_last(), value);
        assert forall|k: int| 0 <= k < schedule.len() implies 0 <= (#[trigger] schedule[k]).0
            < pool.len() by {
            if k < schedule.len() - 1 {
                assert(schedule.drop_last()[k] == schedule[k]);
            }
        }
    }
}

/// The schedule up to its last access names writes of the pool only, too.
pub(crate) proof fn lemma_earlier(pool: Seq<OpView>, schedule: Seq<(int, Seq<char>)>)
    requires
        is_schedule(pool, schedule),
        schedule.len() > 0,
    ensures
        is_schedule(pool, schedule.drop_last()),
        0 <= schedule.last().0 < pool.len(),
{
    assert forall|k: int| 0 <= k < schedule.drop_last().len() implies 0 <= (
    #[trigger] schedule.drop_last()[k]).0 < pool.len() by {
        assert(schedule.drop_last()[k] == schedule[k]);
    }
    assert(schedule[schedule.len() - 1] == schedule.last());
}

/// However the accesses of the writes in a pool fall, a value whose lists and
/// owner agree, but for what the writes are still to do, stays so, whatever
/// holds of any other value. Where all writes have ended, they agree: the value
/// is fully there or fully gone. Only a draw that comes up with that very value
/// must find it not in use.
pub proof fn law_every_schedule_keeps_a_value(
    m: Contents,
    pool: Seq<OpView>,
    schedule: Seq<(int, Seq<char>)>,
    value: Seq<char>,
)
    requires
        consistent_on(m, pool, value),
        is_schedule(pool, schedule),
        finds_unused(m, pool, schedule, value),
    ensures
        ({
            let (m2, pool2) = after(m, pool, schedule);
            &&& consistent_on(m2, pool2, value)
            &&& pool2.len() == pool.len()
            &&& (forall|i: int| 0 <= i < pool2.len() ==> #[trigger] pool2[i] is Done)
                ==> settled_value(m2, value)
        }),
    decreases schedule.len(),
{
    if schedule.len() > 0 {
        lemma_earlier(pool, schedule);
        law_every_schedule_keeps_a_value(m, pool, schedule.drop_last(), value);
        let (m1, pool1) = after(m, pool, schedule.drop_last());
        let (i, drawn) = schedule.last();
        law_any_step_keeps_a_value(m1, pool1, i, drawn, value);
    }
    let (m2, pool2) = after(m, pool, schedule);
    if forall|i: int| 0 <= i < pool2.len() ==> #[trigger] pool2[i] is Done {
        law_quiescent_value_is_settled(m2, pool2, value);
    }
}

/// However the accesses of the writes in a pool fall, the pool stays
/// consistent. Where all writes have ended, the lists and the owners agree:
/// each NameID is fully there or fully gone.
pub proof fn law_every_schedule_keeps_consistency(
    m: Contents,
    pool: Seq<OpView>,
    schedule: Seq<(int, Seq<char>)>,
)
    requires
        consistent(m, pool),
        fair_draws(m, pool, schedule),
    ensures
        ({
            let (m2, pool2) = after(m, pool, schedule);
            &&& consistent(m2, pool2)
            &&& pool2.len() == pool.len()
            &&& (forall|i: int| 0 <= i < pool2.len() ==> #[trigger] pool2[i] is Done)
                ==> settled_state(m2)
        }),
{
    let (m2, pool2) = after(m, pool, schedule);
    assert forall|value: Seq<char>| #[trigger] consistent_on(m2, pool2, value) && pool2.len()
        == pool.len() by {
        assert(consistent_on(m, pool, value));
        lemma_fair_draws(m, pool, schedule, value);
        law_every_schedule_keeps_a_value(m, pool, schedule, value);
    }
    assert(consistent_on(m2, pool2, Seq::empty()));
    if forall|i: int| 0 <= i < pool2.len() ==> #[trigger] pool2[i] is Done {
        law_quiescent_pool_is_settled(m2, pool2);
    }
}

/// Whether a write takes NameIDs out of lists.
pub open spec fn takes_out(op: OpView) -> bool {
    op is ForgetFind || op is ForgetRead || op is ForgetSwap || op is ForgetUnlink
        || op is ClearRead || op is ClearSwap || op is ClearUnlink
}

/// No access loses another writer's entry: a write that takes nothing out only
/// ever adds one entry at the end of one list, and one that forgets a NameID
/// takes out that NameID alone.
pub proof fn law_no_step_drops_an_entry(
    m: Contents,
    op: OpView,
    drawn: Seq<char>,
    user_id: Seq<char>,
)
    ensures
        ({
            let m2 = next(op, m, drawn).1;
            let es = entries(m, user_id);
            let es2 = entries(m2, user_id);
            &&& !takes_out(op) ==> es2 == es || (carried(op) matches Some((n, u)) && u == user_id
                && es2 == es.push(coded(n)))
            &&& forgets(op) matches Some(n) ==> es2 == es || es2 == others(es, coded(n))
            &&& op matches OpView::ClearSwap { user_id: u, seen } ==> es2 == es || (u == user_id
                && es == entries_in(seen))
            &&& (op is ForgetUnlink || op is ClearRead || op is ClearUnlink) ==> es2 == es
        }),
{
    lemma_keys();
    match op {
        OpView::AppendSwap { user_id: u, name_id, seen } => {
            if lookup(m, forward_key(u)) == seen {
                lemma_append_lists(m, u, name_id);
            }
        },
        OpView::MintSwap { issue, seen, candidate } => {
            if lookup(m, forward_key(issue.user_id)) == seen {
                lemma_append_lists(m, issue.user_id, candidate);
            }
        },
        OpView::ForgetSwap { user_id: u, name_id, seen } => {
            lemma_without_entry(seen, coded(name_id));
        },
        OpView::ClearSwap { .. } => {
            lemma_no_entries();
        },
        _ => {},
    }
}

/// How far a write that gets or creates a persistent NameID is: still looking,
/// with a list in hand that has none, or decided on the one in the list.
pub open spec fn mint_on_track(m: Contents, op: OpView, issue: IssueView) -> bool {
    let in_list = persistent_in(
        listed(m, issue.user_id),
        issue.sp_name_qualifier,
        issue.name_qualifier,
    );
    match op {
        OpView::MintRead { issue: i, candidate } => i == issue && (candidate matches Some(c) ==> c
            == issue.name_id(c.value)),
        OpView::MintDraw { issue: i, seen } => i == issue && persistent_in(
            decoded_all(entries_of(seen)),
            issue.sp_name_qualifier,
            issue.name_qualifier,
        ) is None,
        OpView::MintLink { issue: i, seen, candidate: c } => i == issue && c == issue.name_id(
            c.value,
        ) && persistent_in(
            decoded_all(entries_of(seen)),
            issue.sp_name_qualifier,
            issue.name_qualifier,
        ) is None,
        OpView::MintSwap { issue: i, seen, candidate: c } => i == issue && c == issue.name_id(
            c.value,
        ) && persistent_in(
            decoded_all(entries_of(seen)),
            issue.sp_name_qualifier,
            issue.name_qualifier,
        ) is None,
        OpView::MintAbandon { existing, .. } => in_list == Some(existing),
        OpView::Done { result } => result is Some && in_list == result,
        _ => false,
    }
}

/// A write for a persistent NameID that ends has decided on the one that the
/// user's list has: its own, or one that was there first.
pub proof fn law_mint_stays_on_track(m: Contents, op: OpView, issue: IssueView, drawn: Seq<char>)
    requires
        mint_on_track(m, op, issue),
        issue.format == NAMEID_PERSISTENT@,
        super::laws::well_qualified(issue),
    ensures
        mint_on_track(next(op, m, drawn).1, next(op, m, drawn).0, issue),
{
    lemma_keys();
    match op {
        OpView::MintSwap { seen, candidate, .. } => {
            if lookup(m, forward_key(issue.user_id)) == seen {
                lemma_has_content(candidate);
                lemma_append_lists(m, issue.user_id, candidate);
                law_decode_undoes_code(candidate);
                assert(storable(candidate) == candidate);
                let es = entries(m, issue.user_id);
                assert(decoded_all(es.push(coded(candidate))) == decoded_all(es).push(candidate));
                lemma_persistent_in(
                    decoded_all(es),
                    issue.sp_name_qualifier,
                    issue.name_qualifier,
                    candidate,
                );
            }
        },
        OpView::MintAbandon { value, .. } => {
            lemma_other_key(m, reverse_key(value), Seq::empty(), issue.user_id);
        },
        _ => {},
    }
}

/// The persistent NameID of a list stays the same whatever another write that
/// takes nothing out does.
pub proof fn law_others_leave_the_persistent(
    m: Contents,
    op: OpView,
    drawn: Seq<char>,
    user_id: Seq<char>,
    sp_name_qualifier: Option<Seq<char>>,
    name_qualifier: Option<Seq<char>>,
    n: NameIdView,
)
    requires
        !takes_out(op),
        persistent_in(listed(m, user_id), sp_name_qualifier, name_qualifier) == Some(n),
    ensures
        persistent_in(
            listed(next(op, m, drawn).1, user_id),
            sp_name_qualifier,
            name_qualifier,
        ) == Some(n),
{
    law_no_step_drops_an_entry(m, op, drawn, user_id);
    let es = entries(m, user_id);
    if let Some((added, _)) = carried(op) {
        assert(decoded_all(es.push(coded(added))) == decoded_all(es).push(decoded(coded(added))));
        lemma_persistent_in(
            listed(m, user_id),
            sp_name_qualifier,
            name_qualifier,
            decoded(coded(added)),
        );
    }
}

/// Whether no write in a pool takes anything out.
pub open spec fn only_adds(pool: Seq<OpView>) -> bool {
    forall|i: int| 0 <= i < pool.len() ==> !takes_out(#[trigger] pool[i])
}

pub(crate) proof fn lemma_only_adds(
    m: Contents,
    pool: Seq<OpView>,
    schedule: Seq<(int, Seq<char>)>,
    w: int,
    issue: IssueView,
)
    requires
        only_adds(pool),
        is_schedule(pool, schedule),
        0 <= w < pool.len(),
        mint_on_track(m, pool[w], issue),
        issue.format == NAMEID_PERSISTENT@,
        super::laws::well_qualified(issue),
    ensures
        ({
            let (m2, pool2) = after(m, pool, schedule);
            &&& pool2.len() == pool.len()
            &&& only_adds(pool2)
            &&& mint_on_track(m2, pool2[w], issue)
        }),
    decreases schedule.len(),
{
    if schedule.len() > 0 {
        lemma_earlier(pool, schedule);
        lemma_only_adds(m, pool, schedule.drop_last(), w, issue);
        let (m1, pool1) = after(m, pool, schedule.drop_last());
        let (i, drawn) = schedule.last();
        let (op2, m2) = next(pool1[i], m1, drawn);
        let pool2 = pool1.update(i, op2);
        assert(!takes_out(pool1[i]));
        assert(only_adds(pool2));
        if i == w {
            law_mint_stays_on_track(m1, pool1[w], issue, drawn);
        } else {
            assert(pool2[w] == pool1[w]);
            if let Some(n) = persistent_in(
                listed(m1, issue.user_id),
                issue.sp_name_qualifier,
                issue.name_qualifier,
            ) {
                law_others_leave_the_persistent(
                    m1,
                    pool1[i],
                    drawn,
                    issue.user_id,
                    issue.sp_name_qualifier,
                    issue.name_qualifier,
                    n,
                );
            }
        }
    }
}

/// Writers that ask at once for the same persistent NameID all get the same
/// one, and it is the one in the user's list, however their accesses fall,
/// whatever else is being stored and whatever their draws come up with.
pub proof fn law_concurrent_mints_agree(
    m: Contents,
    pool: Seq<OpView>,
    schedule: Seq<(int, Seq<char>)>,
    a: int,
    b: int,
    issue: IssueView,
)
    requires
        only_adds(pool),
        is_schedule(pool, schedule),
        0 <= a < pool.len(),
        0 <= b < pool.len(),
        pool[a] == (OpView::MintRead { issue, candidate: None }),
        pool[b] == (OpView::MintRead { issue, candidate: None }),
        issue.format == NAMEID_PERSISTENT@,
        super::laws::well_qualified(issue),
        after(m, pool, schedule).1[a] is Done,
        after(m, pool, schedule).1[b] is Done,
    ensures
        after(m, pool, schedule).1[a] == after(m, pool, schedule).1[b],
        after(m, pool, schedule).1[a] == (OpView::Done {
            result: persistent_in(
                listed(after(m, pool, schedule).0, issue.user_id),
                issue.sp_name_qualifier,
                issue.name_qualifier,
            ),
        }),
{
    lemma_only_adds(m, pool, schedule, a, issue);
    lemma_only_adds(m, pool, schedule, b, issue);
}

/// How many entries of a list are persistent for the two qualifiers.
pub open spec fn persistent_count(
    es: Seq<Seq<char>>,
    sp_name_qualifier: Option<Seq<char>>,
    name_qualifier: Option<Seq<char>>,
) -> nat
    decreases es.len(),
{
    if es.len() == 0 {
        0
    } else {
        persistent_count(es.drop_last(), sp_name_qualifier, name_qualifier)
            + if is_persistent_for(decoded(es.last()), sp_name_qualifier, name_qualifier) {
            1nat
        } else {
            0
        }
    }
}

/// Whether persistent NameIDs only come into lists through writes that first
/// look for an existing one.
pub open spec fn looks_first(op: OpView) -> bool {
    match op {
        OpView::IssueDraw(issue) => issue.format != NAMEID_PERSISTENT@,
        OpView::StoreLink { name_id, .. } => name_id.format != Some(NAMEID_PERSISTENT@),
        OpView::AppendRead { name_id, .. } => name_id.format != Some(NAMEID_PERSISTENT@),
        OpView::AppendSwap { name_id, .. } => name_id.format != Some(NAMEID_PERSISTENT@),
        OpView::MintRead { issue, .. } => wants_persistent(issue) && mint_on_track(
            Map::empty(),
            op,
            issue,
        ),
        OpView::MintDraw { issue, .. } => wants_persistent(issue) && mint_on_track(
            Map::empty(),
            op,
            issue,
        ),
        OpView::MintLink { issue, .. } => wants_persistent(issue) && mint_on_track(
            Map::empty(),
            op,
            issue,
        ),
        OpView::MintSwap { issue, .. } => wants_persistent(issue) && mint_on_track(
            Map::empty(),
            op,
            issue,
        ),
        _ => true,
    }
}

/// Whether an issue is for a persistent NameID, without empty qualifiers.
pub open spec fn wants_persistent(issue: IssueView) -> bool {
    issue.format == NAMEID_PERSISTENT@ && super::laws::well_qualified(issue)
}

proof fn lemma_count_none(
    es: Seq<Seq<char>>,
    sp_name_qualifier: Option<Seq<char>>,
    name_qualifier: Option<Seq<char>>,
)
    requires
        forall|i: int|
            0 <= i < es.len() ==> !is_persistent_for(
                decoded(#[trigger] es[i]),
                sp_name_qualifier,
                name_qualifier,
            ),
    ensures
        persistent_count(es, sp_name_qualifier, name_qualifier) == 0,
    decreases es.len(),
{
    if es.len() > 0 {
        lemma_count_none(es.drop_last(), sp_name_qualifier, name_qualifier);
        assert(!is_persistent_for(
            decoded(es[es.len() - 1]),
            sp_name_qualifier,
            name_qualifier,
        ));
    }
}

proof fn lemma_count_others(
    es: Seq<Seq<char>>,
    entry: Seq<char>,
    sp_name_qualifier: Option<Seq<char>>,
    name_qualifier: Option<Seq<char>>,
)
    ensures
        persistent_count(others(es, entry), sp_name_qualifier, name_qualifier) <= persistent_count(
            es,
            sp_name_qualifier,
            name_qualifier,
        ),
    decreases es.len(),
{
    reveal(Seq::filter);
    if es.len() > 0 {
        lemma_count_others(es.drop_last(), entry, sp_name_qualifier, name_qualifier);
        if es.last() != entry {
            let rest = others(es.drop_last(), entry);
            assert(others(es, entry) == rest.push(es.last()));
            assert(rest.push(es.last()).drop_last() == rest);
        }
    }
}

/// At most one persistent NameID is ever listed for a user, a service provider
/// and an identity provider: no access of any write makes it two. Where more are
/// listed to begin with, no access adds to them, and only one that takes
/// something out makes them fewer.
pub proof fn law_at_most_one_persistent(
    m: Contents,
    op: OpView,
    drawn: Seq<char>,
    user_id: Seq<char>,
    sp_name_qualifier: Option<Seq<char>>,
    name_qualifier: Option<Seq<char>>,
)
    requires
        looks_first(op),
    ensures
        ({
            let before = persistent_count(
                entries(m, user_id),
                sp_name_qualifier,
                name_qualifier,
            );
            let afterwards = persistent_count(
                entries(next(op, m, drawn).1, user_id),
                sp_name_qualifier,
                name_qualifier,
            );
            &&& afterwards <= 1 || afterwards <= before
            &&& !takes_out(op) ==> before <= afterwards
        }),
        looks_first(next(op, m, drawn).0),
{
    let m2 = next(op, m, drawn).1;
    let es = entries(m, user_id);
    let es2 = entries(m2, user_id);
    law_no_step_drops_an_entry(m, op, drawn, user_id);
    lemma_keys();
    match op {
        OpView::AppendSwap { name_id, .. } => {
            law_decode_undoes_code(name_id);
            assert(es.push(coded(name_id)).drop_last() == es);
        },
        OpView::MintSwap { issue, seen, candidate } => {
            law_decode_undoes_code(candidate);
            assert(storable(candidate) == candidate);
            assert(es.push(coded(candidate)).drop_last() == es);
            if lookup(m, forward_key(issue.user_id)) == seen && issue.user_id == user_id
                && is_persistent_for(candidate, sp_name_qualifier, name_qualifier) {
                lemma_persistent_in(
                    decoded_all(es),
                    sp_name_qualifier,
                    name_qualifier,
                    candidate,
                );
                assert forall|i: int| 0 <= i < es.len() implies !is_persistent_for(
                    decoded(#[trigger] es[i]),
                    sp_name_qualifier,
                    name_qualifier,
                ) by {
                    assert(decoded_all(es)[i] == decoded(es[i]));
                }
                lemma_count_none(es, sp_name_qualifier, name_qualifier);
            }
        },
        OpView::ForgetFind { name_id } => {
            lemma_count_others(es, coded(name_id), sp_name_qualifier, name_qualifier);
        },
        OpView::ForgetRead { name_id, .. } => {
            lemma_count_others(es, coded(name_id), sp_name_qualifier, name_qualifier);
        },
        OpView::ForgetSwap { name_id, .. } => {
            lemma_count_others(es, coded(name_id), sp_name_qualifier, name_qualifier);
        },
        OpView::ClearSwap { .. } => {
            lemma_no_entries();
        },
        _ => {},
    }
}

} // verus!
