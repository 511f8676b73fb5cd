//! The writers of the identity database, one store access at a time.
//!
//! Several processes may write to one store. Each write to the database is a
//! sequence of store accesses, between which other writers may act. An
//! [`IdentOp`] is such a write with what it still has to do: [`IdentOp::step`]
//! makes one access and says what is left.
//!
//! A list of NameIDs is only ever changed by compare-and-swap against the list
//! that was read, and the owner of a value is written before the value
//! appears in a list and removed after it has left the list.

use super::coding::{code_name_id, coded};
use super::forward::{
    decode_all, decoded_all, entries_from, entries_in, entries_of, forward_entries,
    forward_key, make_forward_key, make_reverse_key, owner, reverse_key,
};
use super::store::{lookup, Contents, IdentityStore};
use crate::saml::constants::NAMEID_PERSISTENT;
use crate::saml::name_id::{name_id_views, NameId, NameIdView};
use crate::text::{
    as_opt_str, contains_text, join, join_with, opt_str, opt_text, same_opt, texts, to_opt_string,
};
use vstd::prelude::*;

verus! {

/// A NameID that is to be issued: everything but its value.
#[derive(Debug)]
pub struct Issue {
    /// The local user it is issued to.
    pub user_id: String,
    /// The NameID format.
    pub format: String,
    /// The qualifier of the service provider.
    pub sp_name_qualifier: Option<String>,
    /// The qualifier of the identity provider.
    pub name_qualifier: Option<String>,
}

/// What an [`Issue`] says.
#[verifier::ext_equal]
pub struct IssueView {
    pub user_id: Seq<char>,
    pub format: Seq<char>,
    pub sp_name_qualifier: Option<Seq<char>>,
    pub name_qualifier: Option<Seq<char>>,
}

impl View for Issue {
    type V = IssueView;

    open spec fn view(&self) -> IssueView {
        IssueView {
            user_id: self.user_id@,
            format: self.format@,
            sp_name_qualifier: opt_text(self.sp_name_qualifier),
            name_qualifier: opt_text(self.name_qualifier),
        }
    }
}

impl IssueView {
    /// The NameID that is issued with `value`.
    pub open spec fn name_id(self, value: Seq<char>) -> NameIdView {
        NameIdView {
            value,
            format: Some(self.format),
            name_qualifier: self.name_qualifier,
            sp_name_qualifier: self.sp_name_qualifier,
            sp_provided_id: None,
        }
    }
}

impl Issue {
    /// The NameID that is issued with `value`.
    pub fn name_id(&self, value: &str) -> (result: NameId)
        ensures
            result@ == self@.name_id(value@),
    {
        NameId {
            value: value.to_owned(),
            format: Some(self.format.clone()),
            name_qualifier: to_opt_string(as_opt_str(&self.name_qualifier)),
            sp_name_qualifier: to_opt_string(as_opt_str(&self.sp_name_qualifier)),
            sp_provided_id: None,
        }
    }
}

/// Whether a NameID is the persistent one for the two qualifiers.
pub open spec fn is_persistent_for(
    n: NameIdView,
    sp_name_qualifier: Option<Seq<char>>,
    name_qualifier: Option<Seq<char>>,
) -> bool {
    &&& n.format == Some(NAMEID_PERSISTENT@)
    &&& n.sp_name_qualifier == sp_name_qualifier
    &&& n.name_qualifier == name_qualifier
}

/// The first persistent NameID for the two qualifiers.
pub open spec fn persistent_in(
    ns: Seq<NameIdView>,
    sp_name_qualifier: Option<Seq<char>>,
    name_qualifier: Option<Seq<char>>,
) -> Option<NameIdView>
    decreases ns.len(),
{
    if ns.len() == 0 {
        None
    } else if is_persistent_for(ns[0], sp_name_qualifier, name_qualifier) {
        Some(ns[0])
    } else {
        persistent_in(ns.skip(1), sp_name_qualifier, name_qualifier)
    }
}

/// The first persistent NameID for the two qualifiers.
pub fn find_persistent(
    ns: &[NameId],
    sp_name_qualifier: Option<&str>,
    name_qualifier: Option<&str>,
) -> (result: Option<NameId>)
    ensures
        opt_name_id(result) == persistent_in(
            name_id_views(ns@),
            opt_str(sp_name_qualifier),
            opt_str(name_qualifier),
        ),
{
    let mut i: usize = 0;
    let ghost all = name_id_views(ns@);
    assert(all.skip(0) == all);
    while i < ns.len()
        invariant
            i <= ns@.len(),
            all == name_id_views(ns@),
            persistent_in(all, opt_str(sp_name_qualifier), opt_str(name_qualifier))
                == persistent_in(
                all.skip(i as int),
                opt_str(sp_name_qualifier),
                opt_str(name_qualifier),
            ),
        decreases ns@.len() - i,
    {
        assert(all.skip(i as int)[0] == ns@[i as int]@);
        assert(all.skip(i as int).skip(1) == all.skip(i + 1));
        if same_opt(as_opt_str(&ns[i].format), Some(NAMEID_PERSISTENT)) && same_opt(
            as_opt_str(&ns[i].sp_name_qualifier),
            sp_name_qualifier,
        ) && same_opt(as_opt_str(&ns[i].name_qualifier), name_qualifier) {
            return Some(ns[i].clone());
        }
        i += 1;
    }
    None
}

/// What an optional NameID says.
pub open spec fn opt_name_id(n: Option<NameId>) -> Option<NameIdView> {
    match n {
        Some(x) => Some(x@),
        None => None,
    }
}

/// The stored list with `entry` added at its end.
pub open spec fn with_entry(seen: Option<Seq<char>>, entry: Seq<char>) -> Seq<char> {
    join(entries_of(seen).push(entry), ' ')
}

/// The entries other than `entry`, in order.
pub open spec fn others(es: Seq<Seq<char>>, entry: Seq<char>) -> Seq<Seq<char>> {
    es.filter(|e: Seq<char>| e != entry)
}

/// The stored list with every `entry` taken out.
pub open spec fn without_entry(seen: Seq<char>, entry: Seq<char>) -> Seq<char> {
    join(others(entries_in(seen), entry), ' ')
}

/// The values of the NameIDs that entries stand for.
pub open spec fn values_of(es: Seq<Seq<char>>) -> Seq<Seq<char>> {
    Seq::new(es.len(), |i: int| super::coding::decoded(es[i]).value)
}

/// The stored list with `entry` added at its end.
pub fn add_entry(seen: &Option<String>, entry: &str) -> (result: String)
    ensures
        result@ == with_entry(opt_text(*seen), entry@),
{
    let mut es = entries_from(seen);
    let ghost before = texts(es@);
    es.push(entry.to_owned());
    assert(texts(es@) == before.push(entry@));
    join_with(es.as_slice(), ' ')
}

/// The stored list with every `entry` taken out.
pub fn drop_entry(seen: &str, entry: &str) -> (result: String)
    ensures
        result@ == without_entry(seen@, entry@),
{
    let es = forward_entries(seen);
    let ghost all = texts(es@);
    let mut out: Vec<String> = Vec::new();
    let mut i: usize = 0;
    proof {
        reveal(Seq::filter);
        assert(others(all.take(0), entry@) == texts(out@));
    }
    while i < es.len()
        invariant
            i <= es@.len(),
            all == texts(es@),
            texts(out@) == others(all.take(i as int), entry@),
        decreases es@.len() - i,
    {
        proof {
            reveal(Seq::filter);
            assert(all.take(i + 1).drop_last() == all.take(i as int));
            assert(all.take(i + 1).last() == es@[i as int]@);
        }
        let ghost before = texts(out@);
        if !crate::text::same(es[i].as_str(), entry) {
            out.push(es[i].clone());
            assert(texts(out@) == before.push(es@[i as int]@));
        }
        i += 1;
    }
    assert(all.take(es@.len() as int) == all);
    join_with(out.as_slice(), ' ')
}

/// The values of the NameIDs in a stored list.
pub fn entry_values(seen: &str) -> (result: Vec<String>)
    ensures
        texts(result@) == values_of(entries_in(seen@)),
{
    let es = forward_entries(seen);
    let ns = decode_all(es.as_slice());
    let mut out: Vec<String> = Vec::new();
    let mut i: usize = 0;
    assert(name_id_views(ns@).len() == ns@.len());
    while i < ns.len()
        invariant
            i <= ns@.len(),
            out@.len() == i,
            name_id_views(ns@) == decoded_all(texts(es@)),
            texts(es@) == entries_in(seen@),
            ns@.len() == es@.len(),
            forall|k: int| 0 <= k < i ==> (#[trigger] out@[k])@ == values_of(entries_in(seen@))[k],
        decreases ns@.len() - i,
    {
        proof {
            assert(name_id_views(ns@)[i as int] == ns@[i as int]@);
            assert(decoded_all(texts(es@))[i as int] == super::coding::decoded(texts(es@)[i as int]));
        }
        out.push(ns[i].value.clone());
        i += 1;
    }
    out
}

/// A write to the identity database, and what it still has to do.
#[allow(inconsistent_fields)]
#[derive(Debug)]
pub enum IdentOp {
    /// Issue a NameID: draw its value, and make sure that no one owns it.
    IssueDraw(Issue),
    /// Store a NameID: write the owner of its value.
    StoreLink { user_id: String, name_id: NameId },
    /// Store a NameID: read the user's list.
    AppendRead { user_id: String, name_id: NameId },
    /// Store a NameID: swap it into the list that was read.
    AppendSwap { user_id: String, name_id: NameId, seen: Option<String> },
    /// Get or create a persistent NameID: read the user's list.
    MintRead { issue: Issue, candidate: Option<NameId> },
    /// Get or create a persistent NameID: draw the value of a candidate.
    MintDraw { issue: Issue, seen: Option<String> },
    /// Get or create a persistent NameID: write the owner of the candidate.
    MintLink { issue: Issue, seen: Option<String>, candidate: NameId },
    /// Get or create a persistent NameID: swap the candidate into the list.
    MintSwap { issue: Issue, seen: Option<String>, candidate: NameId },
    /// Get or create a persistent NameID: another one was there first, so
    /// remove the owner of the unused candidate.
    MintAbandon { value: String, existing: NameId },
    /// Forget a NameID: find its owner.
    ForgetFind { name_id: NameId },
    /// Forget a NameID: read the owner's list.
    ForgetRead { user_id: String, name_id: NameId },
    /// Forget a NameID: swap it out of the list that was read.
    ForgetSwap { user_id: String, name_id: NameId, seen: String },
    /// Forget a NameID: remove the owner of its value.
    ForgetUnlink { value: String },
    /// Forget a user: read the list.
    ClearRead { user_id: String },
    /// Forget a user: swap the list that was read for the empty one.
    ClearSwap { user_id: String, seen: String },
    /// Forget a user: remove the owners of the values that were listed.
    ClearUnlink { values: Vec<String> },
    /// Nothing is left to do.
    Done { result: Option<NameId> },
}

/// What an [`IdentOp`] says.
#[allow(inconsistent_fields)]
#[verifier::ext_equal]
pub enum OpView {
    IssueDraw(IssueView),
    StoreLink { user_id: Seq<char>, name_id: NameIdView },
    AppendRead { user_id: Seq<char>, name_id: NameIdView },
    AppendSwap { user_id: Seq<char>, name_id: NameIdView, seen: Option<Seq<char>> },
    MintRead { issue: IssueView, candidate: Option<NameIdView> },
    MintDraw { issue: IssueView, seen: Option<Seq<char>> },
    MintLink { issue: IssueView, seen: Option<Seq<char>>, candidate: NameIdView },
    MintSwap { issue: IssueView, seen: Option<Seq<char>>, candidate: NameIdView },
    MintAbandon { value: Seq<char>, existing: NameIdView },
    ForgetFind { name_id: NameIdView },
    ForgetRead { user_id: Seq<char>, name_id: NameIdView },
    ForgetSwap { user_id: Seq<char>, name_id: NameIdView, seen: Seq<char> },
    ForgetUnlink { value: Seq<char> },
    ClearRead { user_id: Seq<char> },
    ClearSwap { user_id: Seq<char>, seen: Seq<char> },
    ClearUnlink { values: Seq<Seq<char>> },
    Done { result: Option<NameIdView> },
}

impl View for IdentOp {
    type V = OpView;

    open spec fn view(&self) -> OpView {
        match *self {
            IdentOp::IssueDraw(issue) => OpView::IssueDraw(issue@),
            IdentOp::StoreLink { user_id, name_id } => OpView::StoreLink {
                user_id: user_id@,
                name_id: name_id@,
            },
            IdentOp::AppendRead { user_id, name_id } => OpView::AppendRead {
                user_id: user_id@,
                name_id: name_id@,
            },
            IdentOp::AppendSwap { user_id, name_id, seen } => OpView::AppendSwap {
                user_id: user_id@,
                name_id: name_id@,
                seen: opt_text(seen),
            },
            IdentOp::MintRead { issue, candidate } => OpView::MintRead {
                issue: issue@,
                candidate: opt_name_id(candidate),
            },
            IdentOp::MintDraw { issue, seen } => OpView::MintDraw {
                issue: issue@,
                seen: opt_text(seen),
            },
            IdentOp::MintLink { issue, seen, candidate } => OpView::MintLink {
                issue: issue@,
                seen: opt_text(seen),
                candidate: candidate@,
            },
            IdentOp::MintSwap { issue, seen, candidate } => OpView::MintSwap {
                issue: issue@,
                seen: opt_text(seen),
                candidate: candidate@,
            },
            IdentOp::MintAbandon { value, existing } => OpView::MintAbandon {
                value: value@,
                existing: existing@,
            },
            IdentOp::ForgetFind { name_id } => OpView::ForgetFind { name_id: name_id@ },
            IdentOp::ForgetRead { user_id, name_id } => OpView::ForgetRead {
                user_id: user_id@,
                name_id: name_id@,
            },
            IdentOp::ForgetSwap { user_id, name_id, seen } => OpView::ForgetSwap {
                user_id: user_id@,
                name_id: name_id@,
                seen: seen@,
            },
            IdentOp::ForgetUnlink { value } => OpView::ForgetUnlink { value: value@ },
            IdentOp::ClearRead { user_id } => OpView::ClearRead { user_id: user_id@ },
            IdentOp::ClearSwap { user_id, seen } => OpView::ClearSwap {
                user_id: user_id@,
                seen: seen@,
            },
            IdentOp::ClearUnlink { values } => OpView::ClearUnlink { values: texts(values@) },
            IdentOp::Done { result } => OpView::Done { result: opt_name_id(result) },
        }
    }
}

/// What is left to do when the owners of `values` are still to be removed.
pub open spec fn unlinking(values: Seq<Seq<char>>) -> OpView {
    if values.len() == 0 {
        OpView::Done { result: None }
    } else {
        OpView::ClearUnlink { values }
    }
}

/// One store access of a write: what is left of the write, and what the store
/// holds afterwards. `drawn` is the value that a draw comes up with.
pub open spec fn next(op: OpView, m: Contents, drawn: Seq<char>) -> (OpView, Contents) {
    match op {
        OpView::IssueDraw(issue) => if owner(m, drawn) is None {
            (OpView::StoreLink { user_id: issue.user_id, name_id: issue.name_id(drawn) }, m)
        } else {
            (op, m)
        },
        OpView::StoreLink { user_id, name_id } => (
            OpView::AppendRead { user_id, name_id },
            m.insert(reverse_key(name_id.value), user_id),
        ),
        OpView::AppendRead { user_id, name_id } => {
            let seen = lookup(m, forward_key(user_id));
            if entries_of(seen).contains(coded(name_id)) {
                (OpView::Done { result: Some(name_id) }, m)
            } else {
                (OpView::AppendSwap { user_id, name_id, seen }, m)
            }
        },
        OpView::AppendSwap { user_id, name_id, seen } => if lookup(m, forward_key(user_id))
            == seen {
            (
                OpView::Done { result: Some(name_id) },
                m.insert(forward_key(user_id), with_entry(seen, coded(name_id))),
            )
        } else {
            (OpView::AppendRead { user_id, name_id }, m)
        },
        OpView::MintRead { issue, candidate } => {
            let seen = lookup(m, forward_key(issue.user_id));
            match (
                persistent_in(
                    decoded_all(entries_of(seen)),
                    issue.sp_name_qualifier,
                    issue.name_qualifier,
                ),
                candidate,
            ) {
                (Some(existing), Some(c)) => (OpView::MintAbandon { value: c.value, existing }, m),
                (Some(existing), None) => (OpView::Done { result: Some(existing) }, m),
                (None, Some(c)) => (OpView::MintSwap { issue, seen, candidate: c }, m),
                (None, None) => (OpView::MintDraw { issue, seen }, m),
            }
        },
        OpView::MintDraw { issue, seen } => if owner(m, drawn) is None {
            (OpView::MintLink { issue, seen, candidate: issue.name_id(drawn) }, m)
        } else {
            (op, m)
        },
        OpView::MintLink { issue, seen, candidate } => (
            OpView::MintSwap { issue, seen, candidate },
            m.insert(reverse_key(candidate.value), issue.user_id),
        ),
        OpView::MintSwap { issue, seen, candidate } => if lookup(m, forward_key(issue.user_id))
            == seen {
            (
                OpView::Done { result: Some(candidate) },
                m.insert(forward_key(issue.user_id), with_entry(seen, coded(candidate))),
            )
        } else {
            (OpView::MintRead { issue, candidate: Some(candidate) }, m)
        },
        OpView::MintAbandon { value, existing } => (
            OpView::Done { result: Some(existing) },
            m.remove(reverse_key(value)),
        ),
        OpView::ForgetFind { name_id } => match owner(m, name_id.value) {
            Some(user_id) => (OpView::ForgetRead { user_id, name_id }, m),
            None => (OpView::ForgetUnlink { value: name_id.value }, m),
        },
        OpView::ForgetRead { user_id, name_id } => match lookup(m, forward_key(user_id)) {
            Some(seen) => if entries_in(seen).contains(coded(name_id)) {
                (OpView::ForgetSwap { user_id, name_id, seen }, m)
            } else {
                (OpView::ForgetUnlink { value: name_id.value }, m)
            },
            None => (OpView::ForgetUnlink { value: name_id.value }, m),
        },
        OpView::ForgetSwap { user_id, name_id, seen } => if lookup(m, forward_key(user_id))
            == Some(seen) {
            (
                OpView::ForgetUnlink { value: name_id.value },
                m.insert(forward_key(user_id), without_entry(seen, coded(name_id))),
            )
        } else {
            (OpView::ForgetRead { user_id, name_id }, m)
        },
        OpView::ForgetUnlink { value } => (
            OpView::Done { result: None },
            m.remove(reverse_key(value)),
        ),
        OpView::ClearRead { user_id } => match lookup(m, forward_key(user_id)) {
            Some(seen) => (OpView::ClearSwap { user_id, seen }, m),
            None => (OpView::Done { result: None }, m),
        },
        OpView::ClearSwap { user_id, seen } => if lookup(m, forward_key(user_id)) == Some(seen) {
            (
                unlinking(values_of(entries_in(seen))),
                m.insert(forward_key(user_id), Seq::empty()),
            )
        } else {
            (OpView::ClearRead { user_id }, m)
        },
        OpView::ClearUnlink { values } => if values.len() == 0 {
            (OpView::Done { result: None }, m)
        } else {
            (unlinking(values.skip(1)), m.remove(reverse_key(values[0])))
        },
        OpView::Done { result } => (op, m),
    }
}

fn unlink(values: Vec<String>) -> (result: IdentOp)
    ensures
        result@ == unlinking(texts(values@)),
{
    if values.len() == 0 {
        IdentOp::Done { result: None }
    } else {
        IdentOp::ClearUnlink { values }
    }
}

impl IdentOp {
    /// Make one access to the store. `drawn` is the value to try where the
    /// write has to draw one.
    pub fn step<S: IdentityStore>(self, store: &mut S, drawn: &str) -> (result: IdentOp)
        ensures
            result@ == next(self@, old(store).contents(), drawn@).0,
            final(store).contents() == next(self@, old(store).contents(), drawn@).1,
    {
        match self {
            IdentOp::IssueDraw(issue) => {
                let owned = store.get(make_reverse_key(drawn).as_str());
                if owned.is_none() {
                    let name_id = issue.name_id(drawn);
                    IdentOp::StoreLink { user_id: issue.user_id, name_id }
                } else {
                    IdentOp::IssueDraw(issue)
                }
            },
            IdentOp::StoreLink { user_id, name_id } => {
                store.set(make_reverse_key(name_id.value.as_str()).as_str(), user_id.clone());
                IdentOp::AppendRead { user_id, name_id }
            },
            IdentOp::AppendRead { user_id, name_id } => {
                let seen = store.get(make_forward_key(user_id.as_str()).as_str());
                let es = entries_from(&seen);
                if contains_text(es.as_slice(), code_name_id(&name_id).as_str()) {
                    IdentOp::Done { result: Some(name_id) }
                } else {
                    IdentOp::AppendSwap { user_id, name_id, seen }
                }
            },
            IdentOp::AppendSwap { user_id, name_id, seen } => {
                let new = add_entry(&seen, code_name_id(&name_id).as_str());
                if store.compare_and_swap(
                    make_forward_key(user_id.as_str()).as_str(),
                    as_opt_str(&seen),
                    new.as_str(),
                ) {
                    IdentOp::Done { result: Some(name_id) }
                } else {
                    IdentOp::AppendRead { user_id, name_id }
                }
            },
            IdentOp::MintRead { issue, candidate } => {
                let seen = store.get(make_forward_key(issue.user_id.as_str()).as_str());
                let ns = decode_all(entries_from(&seen).as_slice());
                let found = find_persistent(
                    ns.as_slice(),
                    as_opt_str(&issue.sp_name_qualifier),
                    as_opt_str(&issue.name_qualifier),
                );
                match (found, candidate) {
                    (Some(existing), Some(c)) => IdentOp::MintAbandon { value: c.value, existing },
                    (Some(existing), None) => IdentOp::Done { result: Some(existing) },
                    (None, Some(c)) => IdentOp::MintSwap { issue, seen, candidate: c },
                    (None, None) => IdentOp::MintDraw { issue, seen },
                }
            },
            IdentOp::MintDraw { issue, seen } => {
                let owned = store.get(make_reverse_key(drawn).as_str());
                if owned.is_none() {
                    let candidate = issue.name_id(drawn);
                    IdentOp::MintLink { issue, seen, candidate }
                } else {
                    IdentOp::MintDraw { issue, seen }
                }
            },
            IdentOp::MintLink { issue, seen, candidate } => {
                store.set(
                    make_reverse_key(candidate.value.as_str()).as_str(),
                    issue.user_id.clone(),
                );
                IdentOp::MintSwap { issue, seen, candidate }
            },
            IdentOp::MintSwap { issue, seen, candidate } => {
                let new = add_entry(&seen, code_name_id(&candidate).as_str());
                if store.compare_and_swap(
                    make_forward_key(issue.user_id.as_str()).as_str(),
                    as_opt_str(&seen),
                    new.as_str(),
                ) {
                    IdentOp::Done { result: Some(candidate) }
                } else {
                    IdentOp::MintRead { issue, candidate: Some(candidate) }
                }
            },
            IdentOp::MintAbandon { value, existing } => {
                store.remove(make_reverse_key(value.as_str()).as_str());
                IdentOp::Done { result: Some(existing) }
            },
            IdentOp::ForgetFind { name_id } => {
                match store.get(make_reverse_key(name_id.value.as_str()).as_str()) {
                    Some(user_id) => IdentOp::ForgetRead { user_id, name_id },
                    None => IdentOp::ForgetUnlink { value: name_id.value },
                }
            },
            IdentOp::ForgetRead { user_id, name_id } => {
                match store.get(make_forward_key(user_id.as_str()).as_str()) {
                    Some(seen) => {
                        let es = forward_entries(seen.as_str());
                        if contains_text(es.as_slice(), code_name_id(&name_id).as_str()) {
                            IdentOp::ForgetSwap { user_id, name_id, seen }
                        } else {
                            IdentOp::ForgetUnlink { value: name_id.value }
                        }
                    },
                    None => IdentOp::ForgetUnlink { value: name_id.value },
                }
            },
            IdentOp::ForgetSwap { user_id, name_id, seen } => {
                let new = drop_entry(seen.as_str(), code_name_id(&name_id).as_str());
                if store.compare_and_swap(
                    make_forward_key(user_id.as_str()).as_str(),
                    Some(seen.as_str()),
                    new.as_str(),
                ) {
                    IdentOp::ForgetUnlink { value: name_id.value }
                } else {
                    IdentOp::ForgetRead { user_id, name_id }
                }
            },
            IdentOp::ForgetUnlink { value } => {
                store.remove(make_reverse_key(value.as_str()).as_str());
                IdentOp::Done { result: None }
            },
            IdentOp::ClearRead { user_id } => {
                match store.get(make_forward_key(user_id.as_str()).as_str()) {
                    Some(seen) => IdentOp::ClearSwap { user_id, seen },
                    None => IdentOp::Done { result: None },
                }
            },
            IdentOp::ClearSwap { user_id, seen } => {
                let empty = String::new();
                assert(empty@ == Seq::<char>::empty());
                if store.compare_and_swap(
                    make_forward_key(user_id.as_str()).as_str(),
                    Some(seen.as_str()),
                    empty.as_str(),
                ) {
                    unlink(entry_values(seen.as_str()))
                } else {
                    IdentOp::ClearRead { user_id }
                }
            },
            IdentOp::ClearUnlink { mut values } => {
                if values.len() == 0 {
                    return IdentOp::Done { result: None };
                }
                let ghost all = texts(values@);
                let value = values.remove(0);
                assert(texts(values@) == all.skip(1));
                store.remove(make_reverse_key(value.as_str()).as_str());
                unlink(values)
            },
            IdentOp::Done { result } => IdentOp::Done { result },
        }
    }
}

} // verus!
