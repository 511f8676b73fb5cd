//! The keys of the identity database, and the list of NameIDs under each user.

use super::coding::{decode_name_id, decoded};
use super::store::{lookup, Contents};
use crate::saml::name_id::{name_id_views, NameId, NameIdView};
use crate::text::{concat, free_of, join, split, split_on, texts};
use vstd::prelude::*;

verus! {

/// What stands before a user id in the key of the user's list.
pub const FORWARD_PREFIX: &'static str = "user:";

/// What stands before a NameID value in the key of its owner.
pub const REVERSE_PREFIX: &'static str = "nameid:";

/// The key under which a user's list of stored NameIDs is kept.
pub open spec fn forward_key(user_id: Seq<char>) -> Seq<char> {
    FORWARD_PREFIX@ + user_id
}

/// The key under which the owner of a NameID value is kept.
pub open spec fn reverse_key(value: Seq<char>) -> Seq<char> {
    REVERSE_PREFIX@ + value
}

/// The key of a user's list.
pub fn make_forward_key(user_id: &str) -> (result: String)
    ensures
        result@ == forward_key(user_id@),
{
    concat(FORWARD_PREFIX, user_id)
}

/// The key of a value's owner.
pub fn make_reverse_key(value: &str) -> (result: String)
    ensures
        result@ == reverse_key(value@),
{
    concat(REVERSE_PREFIX, value)
}

/// The keys of lists and the keys of owners are different, and each kind
/// tells its subjects apart.
pub proof fn lemma_keys()
    ensures
        forall|u: Seq<char>, v: Seq<char>| #[trigger] forward_key(u) != #[trigger] reverse_key(v),
        forall|u: Seq<char>, v: Seq<char>|
            #[trigger] forward_key(u) == #[trigger] forward_key(v) ==> u == v,
        forall|u: Seq<char>, v: Seq<char>|
            #[trigger] reverse_key(u) == #[trigger] reverse_key(v) ==> u == v,
{
    reveal_strlit("user:");
    reveal_strlit("nameid:");
    assert forall|u: Seq<char>, v: Seq<char>| #[trigger] forward_key(u) != #[trigger] reverse_key(
        v,
    ) by {
        assert(forward_key(u)[0] == 'u');
        assert(reverse_key(v)[0] == 'n');
    }
    assert forall|u: Seq<char>, v: Seq<char>| #[trigger] forward_key(u) == #[trigger] forward_key(
        v,
    ) implies u == v by {
        assert(forward_key(u).skip(5) == u);
        assert(forward_key(v).skip(5) == v);
    }
    assert forall|u: Seq<char>, v: Seq<char>| #[trigger] reverse_key(u) == #[trigger] reverse_key(
        v,
    ) implies u == v by {
        assert(reverse_key(u).skip(7) == u);
        assert(reverse_key(v).skip(7) == v);
    }
}

/// Whether a piece of a stored list is an entry.
pub open spec fn nonempty(s: Seq<char>) -> bool {
    s.len() > 0
}

/// The pieces that are entries, in order.
pub open spec fn nonempty_of(s: Seq<Seq<char>>) -> Seq<Seq<char>> {
    s.filter(|x: Seq<char>| nonempty(x))
}

/// The entries of a stored list: its space-separated pieces, without the empty
/// ones, so that an emptied list reads as no entries.
pub open spec fn entries_in(joined: Seq<char>) -> Seq<Seq<char>> {
    nonempty_of(split(joined, ' '))
}

/// The entries of a list that may be absent.
pub open spec fn entries_of(stored: Option<Seq<char>>) -> Seq<Seq<char>> {
    match stored {
        Some(joined) => entries_in(joined),
        None => Seq::empty(),
    }
}

/// The stored NameIDs of a user.
pub open spec fn entries(m: Contents, user_id: Seq<char>) -> Seq<Seq<char>> {
    entries_of(lookup(m, forward_key(user_id)))
}

/// The NameIDs that entries stand for.
pub open spec fn decoded_all(es: Seq<Seq<char>>) -> Seq<NameIdView> {
    Seq::new(es.len(), |i: int| decoded(es[i]))
}

/// The NameIDs of a user, in the order they were stored.
pub open spec fn listed(m: Contents, user_id: Seq<char>) -> Seq<NameIdView> {
    decoded_all(entries(m, user_id))
}

/// The local user that a NameID value was issued to.
pub open spec fn owner(m: Contents, value: Seq<char>) -> Option<Seq<char>> {
    lookup(m, reverse_key(value))
}

/// The entries of a stored list.
pub fn forward_entries(joined: &str) -> (result: Vec<String>)
    ensures
        texts(result@) == entries_in(joined@),
{
    let parts = split_on(joined, ' ');
    let ghost all = texts(parts@);
    let mut out: Vec<String> = Vec::new();
    let mut i: usize = 0;
    proof {
        reveal(Seq::filter);
        assert(nonempty_of(all.take(0)) == texts(out@));
    }
    while i < parts.len()
        invariant
            i <= parts@.len(),
            all == texts(parts@),
            texts(out@) == nonempty_of(all.take(i as int)),
        decreases parts@.len() - i,
    {
        proof {
            reveal(Seq::filter);
            assert(all.take(i + 1).drop_last() == all.take(i as int));
            assert(all.take(i + 1).last() == parts@[i as int]@);
        }
        let ghost before = texts(out@);
        if !parts[i].as_str().is_empty() {
            out.push(parts[i].clone());
            assert(texts(out@) == before.push(parts@[i as int]@));
        }
        i += 1;
    }
    assert(all.take(parts@.len() as int) == all);
    out
}

/// The entries of a list that may be absent.
pub fn entries_from(stored: &Option<String>) -> (result: Vec<String>)
    ensures
        texts(result@) == entries_of(crate::text::opt_text(*stored)),
{
    match stored {
        Some(joined) => forward_entries(joined.as_str()),
        None => {
            let none: Vec<String> = Vec::new();
            assert(texts(none@) == Seq::<Seq<char>>::empty());
            none
        },
    }
}

/// The NameIDs that entries stand for.
pub fn decode_all(es: &[String]) -> (result: Vec<NameId>)
    ensures
        name_id_views(result@) == decoded_all(texts(es@)),
{
    let mut out: Vec<NameId> = Vec::new();
    let mut i: usize = 0;
    while i < es.len()
        invariant
            i <= es@.len(),
            out@.len() == i,
            forall|k: int| 0 <= k < i ==> (#[trigger] out@[k])@ == decoded(es@[k]@),
        decreases es@.len() - i,
    {
        out.push(decode_name_id(es[i].as_str()));
        i += 1;
    }
    out
}

/// A text that can be an entry of a stored list.
pub open spec fn is_entry(e: Seq<char>) -> bool {
    nonempty(e) && free_of(e, ' ')
}

proof fn lemma_nonempty_members(s: Seq<Seq<char>>)
    ensures
        forall|i: int|
            0 <= i < nonempty_of(s).len() ==> nonempty(#[trigger] nonempty_of(s)[i]) && s.contains(
                nonempty_of(s)[i],
            ),
    decreases s.len(),
{
    reveal(Seq::filter);
    if s.len() > 0 {
        lemma_nonempty_members(s.drop_last());
        assert forall|i: int| 0 <= i < nonempty_of(s).len() implies nonempty(
            #[trigger] nonempty_of(s)[i],
        ) && s.contains(nonempty_of(s)[i]) by {
            let sub = nonempty_of(s.drop_last());
            let e = nonempty_of(s)[i];
            if i < sub.len() {
                assert(e == sub[i]);
                assert(s.drop_last().contains(e));
                let k = choose|k: int| 0 <= k < s.drop_last().len() && s.drop_last()[k] == e;
                assert(s[k] == e);
            } else {
                assert(s[s.len() - 1] == e);
            }
        }
    }
}

pub(crate) proof fn lemma_nonempty_all(s: Seq<Seq<char>>)
    requires
        forall|i: int| 0 <= i < s.len() ==> nonempty(#[trigger] s[i]),
    ensures
        nonempty_of(s) == s,
    decreases s.len(),
{
    reveal(Seq::filter);
    if s.len() > 0 {
        lemma_nonempty_all(s.drop_last());
        assert(nonempty(s[s.len() - 1]));
        assert(s.drop_last().push(s.last()) == s);
    } else {
        assert(nonempty_of(s) == s);
    }
}

/// What is read from a stored list can be stored in a list.
pub proof fn lemma_entries_are_entries(joined: Seq<char>)
    ensures
        forall|i: int| 0 <= i < entries_in(joined).len() ==> is_entry(#[trigger] entries_in(joined)[i]),
{
    let parts = split(joined, ' ');
    crate::text::lemma_split_pieces(joined, ' ');
    lemma_nonempty_members(parts);
    assert forall|i: int| 0 <= i < entries_in(joined).len() implies is_entry(
        #[trigger] entries_in(joined)[i],
    ) by {
        let e = entries_in(joined)[i];
        assert(parts.contains(e));
        let k = choose|k: int| 0 <= k < parts.len() && parts[k] == e;
        assert(free_of(parts[k], ' '));
    }
}

/// Reading back a stored list of entries gives the entries.
pub proof fn law_entries_round_trip(es: Seq<Seq<char>>)
    requires
        forall|i: int| 0 <= i < es.len() ==> is_entry(#[trigger] es[i]),
    ensures
        entries_in(join(es, ' ')) == es,
{
    if es.len() == 0 {
        assert(split(Seq::<char>::empty(), ' ') == seq![Seq::<char>::empty()]);
        let one = seq![Seq::<char>::empty()];
        reveal(Seq::filter);
        assert(one.drop_last() == Seq::<Seq<char>>::empty());
        assert(nonempty_of(one.drop_last()) == Seq::<Seq<char>>::empty());
        assert(nonempty_of(one) == Seq::<Seq<char>>::empty());
        assert(es == Seq::<Seq<char>>::empty());
    } else {
        assert forall|i: int| 0 <= i < es.len() implies free_of(#[trigger] es[i], ' ') by {
            assert(is_entry(es[i]));
        }
        crate::text::law_split_undoes_join(es, ' ');
        assert forall|i: int| 0 <= i < es.len() implies nonempty(#[trigger] es[i]) by {
            assert(is_entry(es[i]));
        }
        lemma_nonempty_all(es);
    }
}

/// The emptied list has no entries.
pub proof fn lemma_no_entries()
    ensures
        entries_in(Seq::<char>::empty()) == Seq::<Seq<char>>::empty(),
{
    law_entries_round_trip(Seq::empty());
}

} // verus!
