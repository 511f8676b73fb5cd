//! What the identity database promises over several calls.

use super::coding::{
    coded, kept, law_coded_has_no_space, law_decode_undoes_code, storable,
    law_coded_is_empty_only_for_nothing, field,
};
use super::db::{
    cleared, constructed, effective_format, effective_qualifier, fits, fitting_in, forgotten,
    issued, linked, managed, mapped, obtained, owner_keys, stored,
};
use super::error::IdentErrorView;
use super::forward::{
    decoded_all, entries, entries_in, entries_of, forward_key, is_entry, law_entries_round_trip,
    lemma_entries_are_entries, lemma_keys, lemma_no_entries, lemma_nonempty_all, listed, owner,
    reverse_key,
};
use super::op::{
    is_persistent_for, others, persistent_in, values_of, with_entry, without_entry, IssueView,
};
use super::store::{lookup, Contents};
use crate::saml::constants::NAMEID_PERSISTENT;
use crate::saml::name_id::{NameIdPolicyView, NameIdView, NewIdOrTerminate};
use crate::text::{free_of, law_split_undoes_join};
use vstd::prelude::*;

verus! {

/// Whether a NameID has anything to store.
pub open spec fn has_content(n: NameIdView) -> bool {
    coded(n).len() > 0
}

/// A NameID with a value, or with a non-empty field, has something to store.
pub proof fn lemma_has_content(n: NameIdView)
    requires
        n.value.len() > 0 || kept(n.format) is Some,
    ensures
        has_content(n),
        is_entry(coded(n)),
{
    law_coded_has_no_space(n);
    if coded(n).len() == 0 {
        law_coded_is_empty_only_for_nothing(n);
        assert(kept(field(n, 4)) is None);
        assert(kept(field(n, 2)) is None);
    }
}

pub proof fn lemma_other_key(m: Contents, key: Seq<char>, value: Seq<char>, user_id: Seq<char>)
    requires
        key != forward_key(user_id),
    ensures
        entries(m.insert(key, value), user_id) == entries(m, user_id),
        entries(m.remove(key), user_id) == entries(m, user_id),
{
}

pub proof fn lemma_with_entry(seen: Option<Seq<char>>, entry: Seq<char>)
    requires
        is_entry(entry),
    ensures
        entries_in(with_entry(seen, entry)) == entries_of(seen).push(entry),
{
    let es = entries_of(seen).push(entry);
    match seen {
        Some(joined) => lemma_entries_are_entries(joined),
        None => {},
    }
    assert forall|i: int| 0 <= i < es.len() implies is_entry(#[trigger] es[i]) by {
        if i < es.len() - 1 {
            assert(es[i] == entries_of(seen)[i]);
        }
    }
    law_entries_round_trip(es);
}

/// Adding nothing to a stored list leaves its entries as they are.
pub proof fn lemma_with_nothing(seen: Option<Seq<char>>)
    ensures
        entries_in(with_entry(seen, Seq::empty())) == entries_of(seen),
{
    let es = entries_of(seen);
    let nothing = Seq::<char>::empty();
    match seen {
        Some(joined) => lemma_entries_are_entries(joined),
        None => {},
    }
    assert forall|i: int| 0 <= i < es.push(nothing).len() implies free_of(
        #[trigger] es.push(nothing)[i],
        ' ',
    ) by {
        if i < es.len() {
            assert(is_entry(es[i]));
        }
    }
    law_split_undoes_join(es.push(nothing), ' ');
    lemma_nonempty_all(es);
    reveal(Seq::filter);
    assert(es.push(nothing).drop_last() == es);
}

pub proof fn lemma_others(es: Seq<Seq<char>>, entry: Seq<char>)
    ensures
        !others(es, entry).contains(entry),
        forall|e: Seq<char>|
            e != entry ==> (#[trigger] others(es, entry).contains(e) <==> es.contains(e)),
    decreases es.len(),
{
    reveal(Seq::filter);
    if es.len() > 0 {
        let front = es.drop_last();
        lemma_others(front, entry);
        let of = others(front, entry);
        assert(others(es, entry) == if es.last() != entry {
            of.push(es.last())
        } else {
            of
        });
        assert forall|e: Seq<char>| e != entry implies (#[trigger] others(es, entry).contains(e)
            <==> es.contains(e)) by {
            if es.contains(e) {
                let k = choose|k: int| 0 <= k < es.len() && es[k] == e;
                if k < front.len() {
                    assert(front[k] == e);
                    assert(front.contains(e));
                    assert(of.contains(e));
                    let j = choose|j: int| 0 <= j < of.len() && of[j] == e;
                    assert(others(es, entry)[j] == e);
                } else {
                    assert(others(es, entry)[of.len() as int] == e);
                }
            }
            if others(es, entry).contains(e) {
                let j = choose|j: int| 0 <= j < others(es, entry).len() && others(es, entry)[j] == e;
                if j < of.len() {
                    assert(of[j] == e);
                    assert(of.contains(e));
                    assert(front.contains(e));
                    let k = choose|k: int| 0 <= k < front.len() && front[k] == e;
                    assert(es[k] == e);
                } else {
                    assert(es[es.len() - 1] == e);
                }
            }
        }
        if others(es, entry).contains(entry) {
            let j = choose|j: int|
                0 <= j < others(es, entry).len() && others(es, entry)[j] == entry;
            if j < of.len() {
                assert(of[j] == entry);
            }
        }
    }
}

pub proof fn lemma_without_entry(seen: Seq<char>, entry: Seq<char>)
    ensures
        entries_in(without_entry(seen, entry)) == others(entries_in(seen), entry),
{
    let es = others(entries_in(seen), entry);
    lemma_entries_are_entries(seen);
    lemma_others(entries_in(seen), entry);
    assert forall|i: int| 0 <= i < es.len() implies is_entry(#[trigger] es[i]) by {
        assert(es.contains(es[i]));
        assert(entries_in(seen).contains(es[i]));
        let k = choose|k: int| 0 <= k < entries_in(seen).len() && entries_in(seen)[k] == es[i];
        assert(is_entry(entries_in(seen)[k]));
    }
    law_entries_round_trip(es);
}

/// Storing a NameID makes the user its owner and puts it at the end of the
/// user's list, unless it is there already.
pub proof fn law_store_is_found(m: Contents, user_id: Seq<char>, n: NameIdView)
    requires
        has_content(n),
    ensures
        owner(stored(m, user_id, n), n.value) == Some(user_id),
        listed(stored(m, user_id, n), user_id) == if entries(m, user_id).contains(coded(n)) {
            listed(m, user_id)
        } else {
            listed(m, user_id).push(storable(n))
        },
        listed(stored(m, user_id, n), user_id).contains(storable(n)),
{
    lemma_keys();
    law_coded_has_no_space(n);
    law_decode_undoes_code(n);
    let m1 = linked(m, user_id, n);
    lemma_other_key(m, reverse_key(n.value), user_id, user_id);
    lemma_with_entry(lookup(m1, forward_key(user_id)), coded(n));
    let es = entries(m, user_id);
    if es.contains(coded(n)) {
        let k = choose|k: int| 0 <= k < es.len() && es[k] == coded(n);
        assert(listed(m, user_id)[k] == storable(n));
    } else {
        assert(decoded_all(es.push(coded(n))) == decoded_all(es).push(storable(n)));
        assert(decoded_all(es).push(storable(n))[es.len() as int] == storable(n));
    }
}

/// Storing a NameID touches no other user's list and no other value's owner.
pub proof fn law_store_leaves_the_rest(
    m: Contents,
    user_id: Seq<char>,
    n: NameIdView,
    other_user: Seq<char>,
    other_value: Seq<char>,
)
    ensures
        other_user != user_id ==> listed(stored(m, user_id, n), other_user) == listed(m, other_user),
        other_value != n.value ==> owner(stored(m, user_id, n), other_value) == owner(
            m,
            other_value,
        ),
{
    lemma_keys();
}

/// Where an entry is not in a list, taking it out changes nothing.
proof fn lemma_others_absent(es: Seq<Seq<char>>, entry: Seq<char>)
    requires
        !es.contains(entry),
    ensures
        others(es, entry) == es,
    decreases es.len(),
{
    reveal(Seq::filter);
    if es.len() > 0 {
        assert(es.drop_last().push(es.last()) == es);
        assert(es[es.len() - 1] == es.last());
        assert forall|k: int| 0 <= k < es.len() - 1 implies es.drop_last()[k] != entry by {
            assert(es[k] != entry);
        }
        lemma_others_absent(es.drop_last(), entry);
    }
}

/// A forgotten NameID has no owner, and the list of the user who owned it is
/// the one it was without the NameID, in the same order.
pub proof fn law_forget_is_gone(m: Contents, n: NameIdView, user_id: Seq<char>)
    requires
        owner(m, n.value) == Some(user_id),
    ensures
        owner(forgotten(m, n), n.value) is None,
        entries(forgotten(m, n), user_id) == others(entries(m, user_id), coded(n)),
        !entries(forgotten(m, n), user_id).contains(coded(n)),
        forall|e: Seq<char>|
            e != coded(n) ==> (#[trigger] entries(forgotten(m, n), user_id).contains(e) <==> entries(
                m,
                user_id,
            ).contains(e)),
{
    lemma_keys();
    if entries(m, user_id).contains(coded(n)) {
        let seen = m[forward_key(user_id)];
        lemma_without_entry(seen, coded(n));
        lemma_others(entries_in(seen), coded(n));
    } else {
        lemma_others_absent(entries(m, user_id), coded(n));
    }
}

/// Forgetting a NameID touches no other user's list and no other value's owner.
pub proof fn law_forget_leaves_the_rest(
    m: Contents,
    n: NameIdView,
    other_user: Seq<char>,
    other_value: Seq<char>,
)
    ensures
        owner(m, n.value) != Some(other_user) ==> listed(forgotten(m, n), other_user) == listed(
            m,
            other_user,
        ),
        other_value != n.value ==> owner(forgotten(m, n), other_value) == owner(m, other_value),
{
    lemma_keys();
}

/// A user whose NameIDs are forgotten has none left, and none of them has an
/// owner. A list that was kept for the user stays, with nothing on it.
pub proof fn law_clear_is_gone(m: Contents, user_id: Seq<char>, i: int)
    ensures
        listed(cleared(m, user_id), user_id) == Seq::<NameIdView>::empty(),
        0 <= i < listed(m, user_id).len() ==> owner(
            cleared(m, user_id),
            listed(m, user_id)[i].value,
        ) is None,
        lookup(cleared(m, user_id), forward_key(user_id)) is Some <==> lookup(
            m,
            forward_key(user_id),
        ) is Some,
        lookup(m, forward_key(user_id)) is Some ==> lookup(
            cleared(m, user_id),
            forward_key(user_id),
        ) == Some(Seq::<char>::empty()),
{
    lemma_keys();
    lemma_no_entries();
    match lookup(m, forward_key(user_id)) {
        Some(seen) => {
            let values = values_of(entries_in(seen));
            assert(!owner_keys(values).contains(forward_key(user_id)));
            assert(entries(cleared(m, user_id), user_id) == Seq::<Seq<char>>::empty());
            if 0 <= i < listed(m, user_id).len() {
                assert(values[i] == listed(m, user_id)[i].value);
                assert(owner_keys(values).contains(reverse_key(values[i])));
            }
        },
        None => {},
    }
}

/// Forgetting a user touches no other user's list, and no owner of a value that
/// the user did not have.
pub proof fn law_clear_leaves_the_rest(
    m: Contents,
    user_id: Seq<char>,
    other_user: Seq<char>,
    other_value: Seq<char>,
)
    ensures
        other_user != user_id ==> listed(cleared(m, user_id), other_user) == listed(m, other_user),
        (forall|i: int| 0 <= i < listed(m, user_id).len() ==> #[trigger] listed(m, user_id)[i].value
            != other_value) ==> owner(cleared(m, user_id), other_value) == owner(m, other_value),
{
    lemma_keys();
    match lookup(m, forward_key(user_id)) {
        Some(seen) => {
            let values = values_of(entries_in(seen));
            assert(!owner_keys(values).contains(forward_key(other_user)));
            if forall|i: int|
                0 <= i < listed(m, user_id).len() ==> #[trigger] listed(m, user_id)[i].value
                    != other_value {
                assert forall|i: int| 0 <= i < values.len() implies reverse_key(other_value)
                    != reverse_key(#[trigger] values[i]) by {
                    assert(listed(m, user_id)[i].value == values[i]);
                }
                assert(!owner_keys(values).contains(reverse_key(other_value)));
            }
        },
        None => {},
    }
}

/// What the first persistent NameID of a list is: in the list, and persistent
/// for the two qualifiers. A NameID added at the end comes after those there.
pub proof fn lemma_persistent_in(
    ns: Seq<NameIdView>,
    sp_name_qualifier: Option<Seq<char>>,
    name_qualifier: Option<Seq<char>>,
    added: NameIdView,
)
    ensures
        persistent_in(ns, sp_name_qualifier, name_qualifier) matches Some(n) ==> ns.contains(n)
            && is_persistent_for(n, sp_name_qualifier, name_qualifier),
        persistent_in(ns, sp_name_qualifier, name_qualifier) is None ==> forall|i: int|
            0 <= i < ns.len() ==> !is_persistent_for(
                #[trigger] ns[i],
                sp_name_qualifier,
                name_qualifier,
            ),
        persistent_in(ns.push(added), sp_name_qualifier, name_qualifier) == match persistent_in(
            ns,
            sp_name_qualifier,
            name_qualifier,
        ) {
            Some(n) => Some(n),
            None => if is_persistent_for(added, sp_name_qualifier, name_qualifier) {
                Some(added)
            } else {
                None
            },
        },
    decreases ns.len(),
{
    if ns.len() == 0 {
        assert(ns.push(added).skip(1) == ns);
    } else {
        let rest = ns.skip(1);
        lemma_persistent_in(rest, sp_name_qualifier, name_qualifier, added);
        assert(ns.push(added).skip(1) == rest.push(added));
        if !is_persistent_for(ns[0], sp_name_qualifier, name_qualifier) {
            match persistent_in(rest, sp_name_qualifier, name_qualifier) {
                Some(n) => {
                    let k = choose|k: int| 0 <= k < rest.len() && rest[k] == n;
                    assert(ns[k + 1] == n);
                },
                None => {
                    assert forall|i: int| 0 <= i < ns.len() implies !is_persistent_for(
                        #[trigger] ns[i],
                        sp_name_qualifier,
                        name_qualifier,
                    ) by {
                        if i > 0 {
                            assert(ns[i] == rest[i - 1]);
                        }
                    }
                },
            }
        } else {
            assert(ns[0] == ns.first());
        }
    }
}

/// As [`lemma_persistent_in`], for the first NameID that fits.
proof fn lemma_fitting_in(
    ns: Seq<NameIdView>,
    format: Option<Seq<char>>,
    sp_name_qualifier: Option<Seq<char>>,
    added: NameIdView,
)
    ensures
        fitting_in(ns, format, sp_name_qualifier) matches Some(n) ==> ns.contains(n) && fits(
            n,
            format,
            sp_name_qualifier,
        ),
        fitting_in(ns.push(added), format, sp_name_qualifier) == match fitting_in(
            ns,
            format,
            sp_name_qualifier,
        ) {
            Some(n) => Some(n),
            None => if fits(added, format, sp_name_qualifier) {
                Some(added)
            } else {
                None
            },
        },
    decreases ns.len(),
{
    if ns.len() == 0 {
        assert(ns.push(added).skip(1) == ns);
    } else {
        let rest = ns.skip(1);
        lemma_fitting_in(rest, format, sp_name_qualifier, added);
        assert(ns.push(added).skip(1) == rest.push(added));
        if !fits(ns[0], format, sp_name_qualifier) {
            if let Some(n) = fitting_in(rest, format, sp_name_qualifier) {
                let k = choose|k: int| 0 <= k < rest.len() && rest[k] == n;
                assert(ns[k + 1] == n);
            }
        } else {
            assert(ns[0] == ns.first());
        }
    }
}

/// Whether an issue has no empty qualifier and no empty format: the database
/// does not tell an empty one from an absent one.
pub open spec fn well_qualified(issue: IssueView) -> bool {
    &&& issue.format.len() > 0
    &&& kept(issue.sp_name_qualifier) == issue.sp_name_qualifier
    &&& kept(issue.name_qualifier) == issue.name_qualifier
}

/// An issued NameID resolves back to the user it was issued to, and is in the
/// user's list: at its end, unless it was there already.
pub proof fn law_issued_is_found(
    m: Contents,
    m2: Contents,
    issue: IssueView,
    domain: Option<Seq<char>>,
    n: NameIdView,
)
    requires
        issued(m, m2, issue, domain, n),
        well_qualified(issue),
    ensures
        owner(m2, n.value) == Some(issue.user_id),
        listed(m2, issue.user_id).contains(n),
        !entries(m, issue.user_id).contains(coded(n)) ==> listed(m2, issue.user_id) == listed(
            m,
            issue.user_id,
        ).push(n),
{
    assert(storable(n) == n);
    lemma_has_content(n);
    law_store_is_found(m, issue.user_id, n);
    lemma_keys();
    law_decode_undoes_code(n);
    let m1 = linked(m, issue.user_id, n);
    lemma_with_entry(lookup(m1, forward_key(issue.user_id)), coded(n));
    let es = entries(m, issue.user_id);
    assert(decoded_all(es.push(coded(n))) == decoded_all(es).push(n));
    assert(decoded_all(es).push(n)[es.len() as int] == n);
}

/// A NameID that is obtained is of the format that was asked for, and carries
/// the two qualifiers.
pub proof fn law_obtained_is_as_asked(
    m: Contents,
    m2: Contents,
    issue: IssueView,
    domain: Option<Seq<char>>,
    n: NameIdView,
)
    requires
        obtained(m, m2, issue, domain, n),
    ensures
        n.format == Some(issue.format),
        n.sp_name_qualifier == issue.sp_name_qualifier,
        n.name_qualifier == issue.name_qualifier,
{
    lemma_persistent_in(
        listed(m, issue.user_id),
        issue.sp_name_qualifier,
        issue.name_qualifier,
        n,
    );
}

/// A new NameID never has a value that someone owns: two NameIDs that are
/// issued one after the other have different values.
pub proof fn law_issued_values_differ(
    m: Contents,
    m2: Contents,
    m3: Contents,
    first: IssueView,
    second: IssueView,
    domain: Option<Seq<char>>,
    a: NameIdView,
    b: NameIdView,
)
    requires
        issued(m, m2, first, domain, a),
        issued(m2, m3, second, domain, b),
    ensures
        a.value != b.value,
{
    lemma_keys();
    assert(owner(m2, a.value) == Some(first.user_id));
}

/// Persistent NameIDs are stable: asking again for the same user, service
/// provider and identity provider gives the same NameID and writes nothing.
pub proof fn law_persistent_is_stable(
    m: Contents,
    m2: Contents,
    m3: Contents,
    issue: IssueView,
    domain: Option<Seq<char>>,
    a: NameIdView,
    b: NameIdView,
)
    requires
        issue.format == NAMEID_PERSISTENT@,
        well_qualified(issue),
        obtained(m, m2, issue, domain, a),
        obtained(m2, m3, issue, domain, b),
    ensures
        a == b,
        m3 == m2,
{
    let before = listed(m, issue.user_id);
    lemma_persistent_in(before, issue.sp_name_qualifier, issue.name_qualifier, a);
    if persistent_in(before, issue.sp_name_qualifier, issue.name_qualifier) is None {
        assert(storable(a) == a);
        law_decode_undoes_code(a);
        if entries(m, issue.user_id).contains(coded(a)) {
            let es = entries(m, issue.user_id);
            let k = choose|k: int| 0 <= k < es.len() && es[k] == coded(a);
            assert(before[k] == a);
        }
        law_issued_is_found(m, m2, issue, domain, a);
    }
}

/// Persistent NameIDs last: whatever is stored for a user afterwards, the
/// persistent NameID stays the one that was given.
pub proof fn law_persistent_outlasts_stores(
    m: Contents,
    user_id: Seq<char>,
    sp_name_qualifier: Option<Seq<char>>,
    name_qualifier: Option<Seq<char>>,
    n: NameIdView,
    added_for: Seq<char>,
    added: NameIdView,
)
    requires
        persistent_in(listed(m, user_id), sp_name_qualifier, name_qualifier) == Some(n),
        has_content(added),
    ensures
        persistent_in(
            listed(stored(m, added_for, added), user_id),
            sp_name_qualifier,
            name_qualifier,
        ) == Some(n),
{
    if added_for == user_id {
        law_store_is_found(m, user_id, added);
        lemma_persistent_in(
            listed(m, user_id),
            sp_name_qualifier,
            name_qualifier,
            storable(added),
        );
    } else {
        law_store_leaves_the_rest(m, added_for, added, user_id, added.value);
    }
}

/// AllowCreate: a persistent NameID is refused exactly where none is there and
/// the policy does not allow one to be created, and a refusal writes nothing.
/// No other format is refused.
pub proof fn law_allow_create(
    m: Contents,
    m2: Contents,
    idp: Seq<char>,
    domain: Option<Seq<char>>,
    user_id: Seq<char>,
    sp_entity_id: Seq<char>,
    policy: Option<NameIdPolicyView>,
    default_format: Option<Seq<char>>,
    result: Result<NameIdView, IdentErrorView>,
)
    requires
        constructed(m, m2, idp, domain, user_id, sp_entity_id, policy, default_format, result),
    ensures
        (result == Err::<NameIdView, IdentErrorView>(IdentErrorView::CreateNotAllowed)) <==> (
        effective_format(policy, default_format) == Some(NAMEID_PERSISTENT@) && persistent_in(
            listed(m, user_id),
            Some(effective_qualifier(policy, sp_entity_id)),
            Some(idp),
        ) is None && !(policy matches Some(p) && p.allow_create)),
        result is Err ==> m2 == m,
        result matches Ok(n) ==> Some(n.format) == Some(effective_format(policy, default_format))
            && n.sp_name_qualifier == Some(effective_qualifier(policy, sp_entity_id))
            && n.name_qualifier == Some(idp),
{
    if let Ok(n) = result {
        let issue = IssueView {
            user_id,
            format: effective_format(policy, default_format)->0,
            sp_name_qualifier: Some(effective_qualifier(policy, sp_entity_id)),
            name_qualifier: Some(idp),
        };
        law_obtained_is_as_asked(m, m2, issue, domain, n);
    }
}

/// AllowCreate (E14): once a persistent NameID has been created for a request,
/// a request that may not create one gets the same.
pub proof fn law_existing_may_be_used(
    m: Contents,
    m2: Contents,
    m3: Contents,
    idp: Seq<char>,
    domain: Option<Seq<char>>,
    user_id: Seq<char>,
    sp_entity_id: Seq<char>,
    create: NameIdPolicyView,
    default_format: Option<Seq<char>>,
    n: NameIdView,
    again: Result<NameIdView, IdentErrorView>,
)
    requires
        effective_format(Some(create), default_format) == Some(NAMEID_PERSISTENT@),
        effective_qualifier(Some(create), sp_entity_id).len() > 0,
        idp.len() > 0,
        constructed(
            m,
            m2,
            idp,
            domain,
            user_id,
            sp_entity_id,
            Some(create),
            default_format,
            Ok::<NameIdView, IdentErrorView>(n),
        ),
        constructed(
            m2,
            m3,
            idp,
            domain,
            user_id,
            sp_entity_id,
            Some(NameIdPolicyView { allow_create: false, ..create }),
            default_format,
            again,
        ),
    ensures
        again == Ok::<NameIdView, IdentErrorView>(n),
        m3 == m2,
{
    reveal_strlit("urn:oasis:names:tc:SAML:2.0:nameid-format:persistent");
    let issue = IssueView {
        user_id,
        format: NAMEID_PERSISTENT@,
        sp_name_qualifier: Some(effective_qualifier(Some(create), sp_entity_id)),
        name_qualifier: Some(idp),
    };
    let before = listed(m, user_id);
    lemma_persistent_in(before, issue.sp_name_qualifier, issue.name_qualifier, n);
    if persistent_in(before, issue.sp_name_qualifier, issue.name_qualifier) is None {
        assert(storable(n) == n);
        law_decode_undoes_code(n);
        if entries(m, user_id).contains(coded(n)) {
            let es = entries(m, user_id);
            let k = choose|k: int| 0 <= k < es.len() && es[k] == coded(n);
            assert(before[k] == n);
        }
        law_issued_is_found(m, m2, issue, domain, n);
    }
}

/// A new identifier from the service provider is recorded: the same user owns
/// the NameID, and it is in the user's list with the identifier.
pub proof fn law_new_id_is_recorded(
    m: Contents,
    m2: Contents,
    n: NameIdView,
    user_id: Seq<char>,
    new_id: String,
    updated: NameIdView,
)
    requires
        owner(m, n.value) == Some(user_id),
        n.value.len() > 0,
        managed(
            m,
            m2,
            n,
            NewIdOrTerminate::NewId(new_id),
            Ok::<NameIdView, IdentErrorView>(updated),
        ),
    ensures
        updated == (NameIdView { sp_provided_id: Some(new_id@), ..n }),
        owner(m2, updated.value) == Some(user_id),
        listed(m2, user_id).contains(storable(updated)),
        coded(n) != coded(updated) ==> !entries(m2, user_id).contains(coded(n)),
{
    lemma_has_content(updated);
    let gone = forgotten(m, n);
    law_forget_is_gone(m, n, user_id);
    law_store_is_found(gone, user_id, updated);
    lemma_keys();
    lemma_with_entry(lookup(gone, forward_key(user_id)), coded(updated));
    lemma_other_key(gone, reverse_key(updated.value), user_id, user_id);
    let es = entries(gone, user_id);
    if coded(n) != coded(updated) && entries(m2, user_id).contains(coded(n)) {
        if !es.contains(coded(updated)) {
            assert(entries(m2, user_id) == es.push(coded(updated)));
            let k = choose|k: int|
                0 <= k < es.push(coded(updated)).len() && es.push(coded(updated))[k] == coded(n);
            assert(es[k] == coded(n));
        }
    }
}

/// A terminated NameID has no owner left, and is not in its owner's list.
pub proof fn law_terminated_is_gone(m: Contents, m2: Contents, n: NameIdView, updated: NameIdView)
    requires
        managed(
            m,
            m2,
            n,
            NewIdOrTerminate::Terminate,
            Ok::<NameIdView, IdentErrorView>(updated),
        ),
    ensures
        owner(m2, n.value) is None,
        !entries(m2, owner(m, n.value)->0).contains(coded(n)),
{
    law_forget_is_gone(m, n, owner(m, n.value)->0);
}

/// Mapping a NameID is stable: the same request gives the same NameID again,
/// and writes nothing the second time.
pub proof fn law_mapping_is_stable(
    m: Contents,
    m2: Contents,
    m3: Contents,
    idp: Seq<char>,
    domain: Option<Seq<char>>,
    n: NameIdView,
    policy: NameIdPolicyView,
    a: NameIdView,
    again: Result<NameIdView, IdentErrorView>,
)
    requires
        kept(policy.format) == policy.format,
        kept(policy.sp_name_qualifier) == policy.sp_name_qualifier,
        idp.len() > 0,
        mapped(m, m2, idp, domain, n, policy, Ok::<NameIdView, IdentErrorView>(a)),
        mapped(m2, m3, idp, domain, n, policy, again),
    ensures
        again == Ok::<NameIdView, IdentErrorView>(a),
        m3 == m2,
{
    reveal_strlit("urn:oasis:names:tc:SAML:2.0:nameid-format:persistent");
    let user_id = owner(m, n.value)->0;
    let before = listed(m, user_id);
    lemma_fitting_in(before, policy.format, policy.sp_name_qualifier, a);
    if fitting_in(before, policy.format, policy.sp_name_qualifier) is None {
        let issue = IssueView {
            user_id,
            format: match policy.format {
                Some(f) => f,
                None => NAMEID_PERSISTENT@,
            },
            sp_name_qualifier: policy.sp_name_qualifier,
            name_qualifier: Some(idp),
        };
        lemma_persistent_in(before, issue.sp_name_qualifier, issue.name_qualifier, a);
        lemma_none_fits(before, policy.format, policy.sp_name_qualifier);
        if issue.format == NAMEID_PERSISTENT@ {
            if let Some(e) = persistent_in(before, issue.sp_name_qualifier, issue.name_qualifier) {
                let k = choose|k: int| 0 <= k < before.len() && before[k] == e;
                assert(fits(before[k], policy.format, policy.sp_name_qualifier));
            }
        }
        assert(issued(m, m2, issue, domain, a));
        assert(storable(a) == a);
        law_decode_undoes_code(a);
        if entries(m, user_id).contains(coded(a)) {
            let es = entries(m, user_id);
            let k = choose|k: int| 0 <= k < es.len() && es[k] == coded(a);
            assert(before[k] == a);
            assert(fits(before[k], policy.format, policy.sp_name_qualifier));
        }
        law_issued_is_found(m, m2, issue, domain, a);
        lemma_keys();
        assert(owner(m2, n.value) == Some(user_id));
    }
}

proof fn lemma_none_fits(
    ns: Seq<NameIdView>,
    format: Option<Seq<char>>,
    sp_name_qualifier: Option<Seq<char>>,
)
    requires
        fitting_in(ns, format, sp_name_qualifier) is None,
    ensures
        forall|i: int| 0 <= i < ns.len() ==> !fits(#[trigger] ns[i], format, sp_name_qualifier),
    decreases ns.len(),
{
    if ns.len() > 0 {
        lemma_none_fits(ns.skip(1), format, sp_name_qualifier);
        assert forall|i: int| 0 <= i < ns.len() implies !fits(
            #[trigger] ns[i],
            format,
            sp_name_qualifier,
        ) by {
            if i > 0 {
                assert(ns.skip(1)[i - 1] == ns[i]);
            }
        }
    }
}

/// What the first NameID that fits is, told of the list itself.
proof fn lemma_first_fitting(
    ns: Seq<NameIdView>,
    format: Option<Seq<char>>,
    sp_name_qualifier: Option<Seq<char>>,
)
    ensures
        fitting_in(ns, format, sp_name_qualifier) matches Some(a) ==> exists|i: int|
            0 <= i < ns.len() && a == #[trigger] ns[i] && fits(a, format, sp_name_qualifier) && (
            forall|j: int| 0 <= j < i ==> !fits(#[trigger] ns[j], format, sp_name_qualifier)),
    decreases ns.len(),
{
    if ns.len() > 0 && !fits(ns[0], format, sp_name_qualifier) {
        let rest = ns.skip(1);
        lemma_first_fitting(rest, format, sp_name_qualifier);
        if let Some(a) = fitting_in(rest, format, sp_name_qualifier) {
            let k = choose|k: int|
                0 <= k < rest.len() && a == #[trigger] rest[k] && (forall|j: int|
                    0 <= j < k ==> !fits(#[trigger] rest[j], format, sp_name_qualifier));
            assert(ns[k + 1] == a);
            assert forall|j: int| 0 <= j < k + 1 implies !fits(
                #[trigger] ns[j],
                format,
                sp_name_qualifier,
            ) by {
                if j > 0 {
                    assert(rest[j - 1] == ns[j]);
                }
            }
        }
    } else if ns.len() > 0 {
        assert(ns[0] == ns.first());
    }
}

/// A mapping gives what its policy names. Where it succeeds, the NameID has the
/// format that the policy names and the qualifier that the policy names. It is
/// the first of the user's NameIDs that has both, where there is one, and then
/// nothing is written.
pub proof fn law_mapping_gives_what_is_named(
    m: Contents,
    m2: Contents,
    idp: Seq<char>,
    domain: Option<Seq<char>>,
    n: NameIdView,
    policy: NameIdPolicyView,
    result: Result<NameIdView, IdentErrorView>,
)
    requires
        mapped(m, m2, idp, domain, n, policy, result),
    ensures
        result matches Ok(a) ==> (policy.format matches Some(f) ==> a.format == Some(f)),
        result matches Ok(a) ==> (policy.sp_name_qualifier matches Some(q) ==> a.sp_name_qualifier
            == Some(q)),
        forall|user_id: Seq<char>, i: int|
            {
                &&& owner(m, n.value) == Some(user_id)
                &&& 0 <= i < listed(m, user_id).len()
                &&& policy.format is None || listed(m, user_id)[i].format == policy.format
                &&& policy.sp_name_qualifier is None || listed(m, user_id)[i].sp_name_qualifier
                    == policy.sp_name_qualifier
                &&& forall|j: int|
                    0 <= j < i ==> {
                        ||| policy.format is Some && (#[trigger] listed(m, user_id)[j]).format
                            != policy.format
                        ||| policy.sp_name_qualifier is Some && listed(
                            m,
                            user_id,
                        )[j].sp_name_qualifier != policy.sp_name_qualifier
                    }
            } ==> result == Ok::<NameIdView, IdentErrorView>(#[trigger] listed(m, user_id)[i]) && m2
                == m,
{
    if let Some(user_id) = owner(m, n.value) {
        let ns = listed(m, user_id);
        let (format, spq) = (policy.format, policy.sp_name_qualifier);
        lemma_first_fitting(ns, format, spq);
        lemma_fitting_in(ns, format, spq, n);
        match fitting_in(ns, format, spq) {
            Some(a) => {
                let k = choose|k: int|
                    0 <= k < ns.len() && a == #[trigger] ns[k] && fits(a, format, spq) && (forall|
                        j: int,
                    |
                        0 <= j < k ==> !fits(#[trigger] ns[j], format, spq));
                assert forall|i: int|
                    {
                        &&& 0 <= i < ns.len()
                        &&& format is None || ns[i].format == format
                        &&& spq is None || ns[i].sp_name_qualifier == spq
                        &&& forall|j: int|
                            0 <= j < i ==> {
                                ||| format is Some && (#[trigger] ns[j]).format != format
                                ||| spq is Some && ns[j].sp_name_qualifier != spq
                            }
                    } implies a == #[trigger] ns[i] by {
                    assert(fits(ns[i], format, spq));
                    if k < i {
                        assert(!fits(ns[k], format, spq));
                    }
                }
            },
            None => {
                lemma_none_fits(ns, format, spq);
                if let Ok(a) = result {
                    let issue = IssueView {
                        user_id,
                        format: match policy.format {
                            Some(f) => f,
                            None => NAMEID_PERSISTENT@,
                        },
                        sp_name_qualifier: policy.sp_name_qualifier,
                        name_qualifier: Some(idp),
                    };
                    law_obtained_is_as_asked(m, m2, issue, domain, a);
                }
                assert forall|i: int|
                    0 <= i < ns.len() && (format is None || (#[trigger] ns[i]).format == format) && (
                    spq is None || ns[i].sp_name_qualifier == spq) implies false by {
                    assert(fits(ns[i], format, spq));
                }
            },
        }
    }
}

/// When a mapping is refused. A NameID without an owner is unknown, and no
/// other is. A known one is refused exactly where none of the user's NameIDs
/// has the format and the qualifier that the policy names and the policy allows
/// none to be created. A refusal writes nothing.
pub proof fn law_mapping_is_refused_for_cause(
    m: Contents,
    m2: Contents,
    idp: Seq<char>,
    domain: Option<Seq<char>>,
    n: NameIdView,
    policy: NameIdPolicyView,
    result: Result<NameIdView, IdentErrorView>,
)
    requires
        mapped(m, m2, idp, domain, n, policy, result),
    ensures
        (result == Err::<NameIdView, IdentErrorView>(IdentErrorView::UnknownNameId(n.value)))
            <==> owner(m, n.value) is None,
        (result == Err::<NameIdView, IdentErrorView>(IdentErrorView::CreateNotAllowed)) <==> {
            &&& owner(m, n.value) is Some
            &&& !policy.allow_create
            &&& forall|i: int|
                0 <= i < listed(m, owner(m, n.value)->0).len() ==> {
                    ||| policy.format is Some && (#[trigger] listed(
                        m,
                        owner(m, n.value)->0,
                    )[i]).format != policy.format
                    ||| policy.sp_name_qualifier is Some && listed(
                        m,
                        owner(m, n.value)->0,
                    )[i].sp_name_qualifier != policy.sp_name_qualifier
                }
        },
        result is Err ==> m2 == m && (result->Err_0 == IdentErrorView::CreateNotAllowed
            || result->Err_0 == IdentErrorView::UnknownNameId(n.value)),
{
    if let Some(user_id) = owner(m, n.value) {
        let ns = listed(m, user_id);
        let (format, spq) = (policy.format, policy.sp_name_qualifier);
        lemma_fitting_in(ns, format, spq, n);
        match fitting_in(ns, format, spq) {
            Some(a) => {
                let k = choose|k: int| 0 <= k < ns.len() && ns[k] == a;
                assert(fits(ns[k], format, spq));
            },
            None => {
                lemma_none_fits(ns, format, spq);
                assert forall|i: int| 0 <= i < ns.len() implies {
                    ||| format is Some && (#[trigger] ns[i]).format != format
                    ||| spq is Some && ns[i].sp_name_qualifier != spq
                } by {
                    assert(!fits(ns[i], format, spq));
                }
            },
        }
    }
}

/// A NameID that a mapping creates is the user's: no one owned its value
/// before, the user owns it now, and it names this identity provider. Where the
/// policy names no format it is persistent.
pub proof fn law_mapping_creates_for_the_user(
    m: Contents,
    m2: Contents,
    idp: Seq<char>,
    domain: Option<Seq<char>>,
    n: NameIdView,
    policy: NameIdPolicyView,
    a: NameIdView,
)
    requires
        mapped(m, m2, idp, domain, n, policy, Ok::<NameIdView, IdentErrorView>(a)),
        !listed(m, owner(m, n.value)->0).contains(a),
    ensures
        policy.allow_create,
        owner(m, a.value) is None,
        owner(m2, a.value) == owner(m, n.value),
        a.name_qualifier == Some(idp),
        a.sp_name_qualifier == policy.sp_name_qualifier,
        a.sp_provided_id is None,
        policy.format is None ==> a.format == Some(
            "urn:oasis:names:tc:SAML:2.0:nameid-format:persistent"@,
        ),
{
    lemma_keys();
    let user_id = owner(m, n.value)->0;
    let ns = listed(m, user_id);
    lemma_fitting_in(ns, policy.format, policy.sp_name_qualifier, a);
    lemma_persistent_in(ns, policy.sp_name_qualifier, Some(idp), a);
}

/// A constructed NameID is what the request asks for. Its format is the one that
/// the policy names, else the default; it is qualified by what the policy names,
/// else by the service provider, and by this identity provider. Nothing is
/// constructed only where there is no format at all, or where a persistent one
/// is asked for that the user does not have and that may not be created.
pub proof fn law_constructed_is_as_asked(
    m: Contents,
    m2: Contents,
    idp: Seq<char>,
    domain: Option<Seq<char>>,
    user_id: Seq<char>,
    sp_entity_id: Seq<char>,
    policy: Option<NameIdPolicyView>,
    default_format: Option<Seq<char>>,
    format: Option<Seq<char>>,
    qualifier: Seq<char>,
    result: Result<NameIdView, IdentErrorView>,
)
    requires
        constructed(m, m2, idp, domain, user_id, sp_entity_id, policy, default_format, result),
        format == if policy is Some && policy->0.format is Some {
            policy->0.format
        } else {
            default_format
        },
        qualifier == if policy is Some && policy->0.sp_name_qualifier is Some {
            policy->0.sp_name_qualifier->0
        } else {
            sp_entity_id
        },
    ensures
        (result == Err::<NameIdView, IdentErrorView>(IdentErrorView::NoFormat)) <==> format is None,
        (result == Err::<NameIdView, IdentErrorView>(IdentErrorView::CreateNotAllowed)) <==> {
            &&& format == Some("urn:oasis:names:tc:SAML:2.0:nameid-format:persistent"@)
            &&& policy is None || !policy->0.allow_create
            &&& forall|i: int|
                0 <= i < listed(m, user_id).len() ==> {
                    ||| (#[trigger] listed(m, user_id)[i]).format != Some(
                        "urn:oasis:names:tc:SAML:2.0:nameid-format:persistent"@,
                    )
                    ||| listed(m, user_id)[i].sp_name_qualifier != Some(qualifier)
                    ||| listed(m, user_id)[i].name_qualifier != Some(idp)
                }
        },
        result is Err ==> m2 == m && (result->Err_0 is NoFormat || result->Err_0 is CreateNotAllowed),
        result matches Ok(n) ==> {
            &&& n.format == format
            &&& n.sp_name_qualifier == Some(qualifier)
            &&& n.name_qualifier == Some(idp)
            &&& (m2 == m && listed(m, user_id).contains(n)) || (owner(m, n.value) is None && owner(
                m2,
                n.value,
            ) == Some(user_id) && n.sp_provided_id is None)
        },
{
    lemma_keys();
    assert(effective_format(policy, default_format) == format);
    assert(effective_qualifier(policy, sp_entity_id) == qualifier);
    let ns = listed(m, user_id);
    if let Ok(n) = result {
        law_allow_create(
            m,
            m2,
            idp,
            domain,
            user_id,
            sp_entity_id,
            policy,
            default_format,
            result,
        );
        lemma_persistent_in(ns, Some(qualifier), Some(idp), n);
    } else {
        lemma_persistent_in(ns, Some(qualifier), Some(idp), arbitrary());
    }
    if let Some(e) = persistent_in(ns, Some(qualifier), Some(idp)) {
        let k = choose|k: int| 0 <= k < ns.len() && ns[k] == e;
        assert(is_persistent_for(ns[k], Some(qualifier), Some(idp)));
    } else {
        assert forall|i: int| 0 <= i < ns.len() implies {
            ||| (#[trigger] ns[i]).format != Some(NAMEID_PERSISTENT@)
            ||| ns[i].sp_name_qualifier != Some(qualifier)
            ||| ns[i].name_qualifier != Some(idp)
        } by {
            assert(!is_persistent_for(ns[i], Some(qualifier), Some(idp)));
        }
    }
}

/// Only a persistent NameID is given again: one of any other format is new every
/// time it is constructed, and no one owned its value before.
pub proof fn law_others_are_new_every_time(
    m: Contents,
    m2: Contents,
    idp: Seq<char>,
    domain: Option<Seq<char>>,
    user_id: Seq<char>,
    sp_entity_id: Seq<char>,
    policy: Option<NameIdPolicyView>,
    default_format: Option<Seq<char>>,
    n: NameIdView,
)
    requires
        constructed(
            m,
            m2,
            idp,
            domain,
            user_id,
            sp_entity_id,
            policy,
            default_format,
            Ok::<NameIdView, IdentErrorView>(n),
        ),
        n.format != Some("urn:oasis:names:tc:SAML:2.0:nameid-format:persistent"@),
    ensures
        owner(m, n.value) is None,
        owner(m2, n.value) == Some(user_id),
{
    lemma_keys();
    law_allow_create(
        m,
        m2,
        idp,
        domain,
        user_id,
        sp_entity_id,
        policy,
        default_format,
        Ok::<NameIdView, IdentErrorView>(n),
    );
}

/// How a request to manage a NameID is answered. One without an owner is
/// unknown. A new identifier is put in the NameID, whose value keeps its owner;
/// an encrypted one is refused and writes nothing. Terminating takes the
/// identifier of the service provider out, and the value has no owner left. No
/// other field changes.
pub proof fn law_managing_is_as_asked(
    m: Contents,
    m2: Contents,
    n: NameIdView,
    operation: NewIdOrTerminate,
    result: Result<NameIdView, IdentErrorView>,
)
    requires
        managed(m, m2, n, operation, result),
    ensures
        (result == Err::<NameIdView, IdentErrorView>(IdentErrorView::UnknownNameId(n.value)))
            <==> owner(m, n.value) is None,
        result is Err ==> m2 == m,
        owner(m, n.value) is Some && operation is NewEncryptedId ==> result == Err::<
            NameIdView,
            IdentErrorView,
        >(
            IdentErrorView::Unsupported(
                "NewEncryptedID requires decryption before calling handle_manage_name_id_request"@,
            ),
        ),
        owner(m, n.value) is Some && !(operation is NewEncryptedId) ==> result is Ok,
        result matches Ok(a) ==> {
            &&& a.value == n.value
            &&& a.format == n.format
            &&& a.name_qualifier == n.name_qualifier
            &&& a.sp_name_qualifier == n.sp_name_qualifier
            &&& operation matches NewIdOrTerminate::NewId(id) ==> a.sp_provided_id == Some(id@)
                && owner(m2, n.value) == owner(m, n.value)
            &&& operation is Terminate ==> a.sp_provided_id is None && owner(m2, n.value) is None
        },
{
    lemma_keys();
    if owner(m, n.value) is Some {
        law_forget_is_gone(m, n, owner(m, n.value)->0);
    }
}

} // verus!
