//! What one access to the store does for a write, whatever others write meanwhile.

use super::coding::{coded, law_coded_has_no_space};
use super::forward::{
    decoded_all, entries, entries_of, forward_key, is_entry, lemma_keys, listed, owner,
    reverse_key,
};
use super::laws::{lemma_persistent_in, lemma_with_entry};
use super::op::{next, values_of, OpView};
use super::store::{lookup, Contents};
use crate::saml::name_id::NameIdView;
use vstd::prelude::*;

verus! {

/// A write is over only when it has taken effect. What is to be added to the list
/// of a user stands there; a NameID that was obtained is on the list of the user;
/// a value that is forgotten, or that was drawn for nothing, has no owner; and a
/// user who is forgotten has no list, or one with nothing on it. Forgetting a
/// NameID ends with its value, never before.
pub proof fn law_finished_write_took_effect(op: OpView, m: Contents, drawn: Seq<char>)
    requires
        !(op is Done),
        next(op, m, drawn).0 is Done,
    ensures
        ({
            let result = next(op, m, drawn).0->result;
            let m2 = next(op, m, drawn).1;
            match op {
                OpView::AppendRead { user_id, name_id } => result == Some(name_id) && entries(
                    m2,
                    user_id,
                ).contains(coded(name_id)),
                OpView::AppendSwap { user_id, name_id, .. } => result == Some(name_id) && (coded(
                    name_id,
                ).len() > 0 ==> entries(m2, user_id).contains(coded(name_id))),
                OpView::MintRead { issue, candidate } => candidate is None && m2 == m
                    && result is Some && listed(m, issue.user_id).contains(result->0),
                OpView::MintSwap { issue, candidate, .. } => result == Some(candidate) && (coded(
                    candidate,
                ).len() > 0 ==> entries(m2, issue.user_id).contains(coded(candidate))),
                OpView::MintAbandon { value, existing } => result == Some(existing) && owner(
                    m2,
                    value,
                ) is None,
                OpView::ForgetUnlink { value } => result is None && owner(m2, value) is None,
                OpView::ClearRead { user_id } => result is None && m2 == m && lookup(
                    m,
                    forward_key(user_id),
                ) is None,
                OpView::ClearSwap { user_id, seen } => result is None && lookup(
                    m2,
                    forward_key(user_id),
                ) == Some(Seq::<char>::empty()) && entries(m, user_id).len() == 0,
                OpView::ClearUnlink { values } => result is None && values.len() <= 1 && forall|
                    i: int,
                |
                    0 <= i < values.len() ==> owner(m2, #[trigger] values[i]) is None,
                _ => false,
            }
        }),
{
    lemma_keys();
    match op {
        OpView::AppendSwap { user_id, name_id, seen } => {
            lemma_entry_is_there(seen, name_id);
        },
        OpView::MintSwap { issue, seen, candidate } => {
            lemma_entry_is_there(seen, candidate);
        },
        OpView::MintRead { issue, candidate } => {
            let seen = lookup(m, forward_key(issue.user_id));
            lemma_persistent_in(
                decoded_all(entries_of(seen)),
                issue.sp_name_qualifier,
                issue.name_qualifier,
                arbitrary(),
            );
        },
        OpView::ClearSwap { user_id, seen } => {
            assert(values_of(entries(m, user_id)).len() == entries(m, user_id).len());
        },
        _ => {},
    }
}

proof fn lemma_entry_is_there(seen: Option<Seq<char>>, n: NameIdView)
    ensures
        coded(n).len() > 0 ==> entries_of(Some(super::op::with_entry(seen, coded(n)))).contains(
            coded(n),
        ),
{
    if coded(n).len() > 0 {
        law_coded_has_no_space(n);
        assert(is_entry(coded(n)));
        lemma_with_entry(seen, coded(n));
        let es = entries_of(seen).push(coded(n));
        assert(es[es.len() - 1] == coded(n));
    }
}

/// A write that finds the list of its user changed since it was read leaves it as
/// it is, and reads it again for the same NameID and the same user.
pub proof fn law_lost_race_begins_again(op: OpView, m: Contents, drawn: Seq<char>)
    ensures
        match op {
            OpView::AppendSwap { user_id, name_id, seen } => lookup(m, forward_key(user_id)) != seen
                ==> next(op, m, drawn) == (OpView::AppendRead { user_id, name_id }, m),
            OpView::MintSwap { issue, seen, candidate } => lookup(m, forward_key(issue.user_id))
                != seen ==> next(op, m, drawn) == (
                OpView::MintRead { issue, candidate: Some(candidate) },
                m,
            ),
            OpView::ForgetSwap { user_id, name_id, seen } => lookup(m, forward_key(user_id))
                != Some(seen) ==> next(op, m, drawn) == (
                OpView::ForgetRead { user_id, name_id },
                m,
            ),
            OpView::ClearSwap { user_id, seen } => lookup(m, forward_key(user_id)) != Some(seen)
                ==> next(op, m, drawn) == (OpView::ClearRead { user_id }, m),
            _ => true,
        },
{
}

/// A NameID is forgotten in order: who owns it is found, it goes off that user's
/// list where it is on it, and last of all its value is unlinked, whether or not
/// anyone was found to own it.
pub proof fn law_forgetting_goes_in_order(
    user_id: Seq<char>,
    name_id: NameIdView,
    m: Contents,
    drawn: Seq<char>,
)
    ensures
        owner(m, name_id.value) is None ==> next(OpView::ForgetFind { name_id }, m, drawn) == (
            OpView::ForgetUnlink { value: name_id.value },
            m,
        ),
        owner(m, name_id.value) == Some(user_id) ==> next(OpView::ForgetFind { name_id }, m, drawn)
            == (OpView::ForgetRead { user_id, name_id }, m),
        !entries(m, user_id).contains(coded(name_id)) ==> next(
            OpView::ForgetRead { user_id, name_id },
            m,
            drawn,
        ) == (OpView::ForgetUnlink { value: name_id.value }, m),
        entries(m, user_id).contains(coded(name_id)) ==> next(
            OpView::ForgetRead { user_id, name_id },
            m,
            drawn,
        ) == (
            OpView::ForgetSwap { user_id, name_id, seen: lookup(m, forward_key(user_id))->0 },
            m,
        ),
{
}

/// A value that was drawn is taken only where no one owns it, and the step that
/// draws it writes nothing.
pub proof fn law_drawn_value_is_free(op: OpView, m: Contents, drawn: Seq<char>)
    requires
        op is IssueDraw || op is MintDraw,
    ensures
        next(op, m, drawn).1 == m,
        owner(m, drawn) is Some ==> next(op, m, drawn).0 == op,
        owner(m, drawn) is None ==> match next(op, m, drawn).0 {
            OpView::StoreLink { name_id, .. } => op is IssueDraw && name_id.value == drawn,
            OpView::MintLink { candidate, .. } => op is MintDraw && candidate.value == drawn,
            _ => false,
        },
{
}

/// A step touches no list but that of the user it writes for, and no owner but
/// that of the value it writes: it writes under one key at most.
pub proof fn law_step_writes_at_most_one_key(
    op: OpView,
    m: Contents,
    drawn: Seq<char>,
    a: Seq<char>,
    b: Seq<char>,
)
    ensures
        lookup(next(op, m, drawn).1, a) != lookup(m, a) && lookup(next(op, m, drawn).1, b)
            != lookup(m, b) ==> a == b,
        lookup(next(op, m, drawn).1, a) != lookup(m, a) ==> match op {
            OpView::StoreLink { name_id, .. } => a == reverse_key(name_id.value),
            OpView::AppendSwap { user_id, .. } => a == forward_key(user_id),
            OpView::MintLink { candidate, .. } => a == reverse_key(candidate.value),
            OpView::MintSwap { issue, .. } => a == forward_key(issue.user_id),
            OpView::MintAbandon { value, .. } => a == reverse_key(value),
            OpView::ForgetSwap { user_id, .. } => a == forward_key(user_id),
            OpView::ForgetUnlink { value } => a == reverse_key(value),
            OpView::ClearSwap { user_id, .. } => a == forward_key(user_id),
            OpView::ClearUnlink { values } => values.len() > 0 && a == reverse_key(values[0]),
            _ => false,
        },
{
}

} // verus!
