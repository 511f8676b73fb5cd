//! Writes that run to their end without another writer in between.

use super::forward::{entries, forward_key, lemma_keys, owner};
use super::op::{next, opt_name_id, IdentOp, OpView};
use super::store::{lookup, Contents, IdentityStore};
use crate::saml::name_id::{NameId, NameIdView};
use vstd::prelude::*;

verus! {

/// A bound on the accesses a write still makes when no other writer acts.
pub open spec fn rank(op: OpView, m: Contents) -> nat {
    match op {
        OpView::Done { .. } => 0,
        OpView::IssueDraw(_) => 4,
        OpView::StoreLink { .. } => 3,
        OpView::AppendRead { .. } => 2,
        OpView::AppendSwap { user_id, seen, .. } => if lookup(m, forward_key(user_id)) == seen {
            1
        } else {
            3
        },
        OpView::MintRead { candidate, .. } => if candidate is Some {
            2
        } else {
            4
        },
        OpView::MintDraw { issue, seen } => if lookup(m, forward_key(issue.user_id)) == seen {
            3
        } else {
            5
        },
        OpView::MintLink { issue, seen, .. } => if lookup(m, forward_key(issue.user_id)) == seen {
            2
        } else {
            4
        },
        OpView::MintSwap { issue, seen, .. } => if lookup(m, forward_key(issue.user_id)) == seen {
            1
        } else {
            3
        },
        OpView::MintAbandon { .. } => 1,
        OpView::ForgetFind { .. } => 4,
        OpView::ForgetRead { .. } => 3,
        OpView::ForgetSwap { user_id, seen, .. } => if lookup(m, forward_key(user_id)) == Some(
            seen,
        ) {
            2
        } else {
            4
        },
        OpView::ForgetUnlink { .. } => 1,
        OpView::ClearRead { user_id } => 3 + entries(m, user_id).len(),
        OpView::ClearSwap { user_id, seen } => if lookup(m, forward_key(user_id)) == Some(seen) {
            2 + entries(m, user_id).len()
        } else {
            4 + entries(m, user_id).len()
        },
        OpView::ClearUnlink { values } => 1 + values.len(),
    }
}

/// What a write gives, and what the store holds at its end, when no other
/// writer acts and draws come up with `drawn`.
pub open spec fn run(op: OpView, m: Contents, drawn: Seq<char>) -> (Option<NameIdView>, Contents)
    decreases rank(op, m),
{
    let (op2, m2) = next(op, m, drawn);
    match op {
        OpView::Done { result } => (result, m),
        _ => if rank(op2, m2) < rank(op, m) {
            run(op2, m2, drawn)
        } else {
            (None, m)
        },
    }
}

/// The value to draw is known to be free, or no value is to be drawn.
pub open spec fn settled(op: OpView, m: Contents, drawn: Seq<char>) -> bool {
    match op {
        OpView::IssueDraw(_) => owner(m, drawn) is None,
        OpView::MintDraw { .. } => owner(m, drawn) is None,
        OpView::MintRead { candidate, .. } => candidate is Some,
        _ => true,
    }
}

pub(crate) proof fn lemma_rank(op: OpView, m: Contents, drawn: Seq<char>)
    requires
        settled(op, m, drawn),
        !(op is Done),
    ensures
        ({
            let (op2, m2) = next(op, m, drawn);
            rank(op2, m2) < rank(op, m) && settled(op2, m2, drawn)
        }),
{
    lemma_keys();
}

/// Carry a write through to its end.
pub fn finish<S: IdentityStore>(op: IdentOp, store: &mut S, drawn: &str) -> (result: Option<NameId>)
    requires
        settled(op@, old(store).contents(), drawn@),
    ensures
        (opt_name_id(result), final(store).contents()) == run(
            op@,
            old(store).contents(),
            drawn@,
        ),
{
    let mut left = op;
    loop
        invariant
            settled(left@, store.contents(), drawn@),
            run(left@, store.contents(), drawn@) == run(op@, old(store).contents(), drawn@),
        decreases rank(left@, store.contents()),
    {
        proof {
            if !(left@ is Done) {
                lemma_rank(left@, store.contents(), drawn@);
            }
        }
        match left {
            IdentOp::Done { result } => {
                return result;
            },
            _ => {
                left = left.step(store, drawn);
            },
        }
    }
}

} // verus!
