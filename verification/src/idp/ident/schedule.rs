//! What the identity database promises over whole runs of its writers, however
//! their store accesses fall: one after the other, or between each other.

use super::coding::{coded, decoded, law_decode_undoes_code};
use super::forward::{decoded_all, entries, lemma_keys, lemma_no_entries, listed, owner};
use super::laws::{has_content, lemma_has_content, lemma_others, lemma_persistent_in};
use super::op::{is_persistent_for, next, others, persistent_in, IssueView, OpView};
use super::pool::{
    after, carried, carries, consistent, consistent_on, fair_draws, finds_unused, forgets,
    is_schedule, law_at_most_one_persistent, law_concurrent_mints_agree,
    law_every_schedule_keeps_a_value, law_every_schedule_keeps_consistency,
    law_no_step_drops_an_entry, lemma_append_lists, lemma_earlier, lemma_only_adds,
    listed_are_owned, listed_only_as, lists_value, looks_first, mint_on_track, only_adds, op_ok,
    persistent_count, settled_value, takes_out, unused, wants_persistent,
};
use super::run::{lemma_rank, rank, run, settled};
use super::store::Contents;
use vstd::prelude::*;

verus! {

/// Whether no user's list has a value twice.
pub open spec fn values_once(m: Contents) -> bool {
    forall|u: Seq<char>, i: int, j: int|
        0 <= i < j < entries(m, u).len() ==> decoded(#[trigger] entries(m, u)[i]).value != decoded(
            #[trigger] entries(m, u)[j],
        ).value
}

/// Whether the entries of a list have different values.
spec fn distinct_values(es: Seq<Seq<char>>) -> bool {
    forall|i: int, j: int|
        0 <= i < j < es.len() ==> decoded(#[trigger] es[i]).value != decoded(
            #[trigger] es[j],
        ).value
}

proof fn lemma_others_distinct(es: Seq<Seq<char>>, entry: Seq<char>)
    requires
        distinct_values(es),
    ensures
        distinct_values(others(es, entry)),
        forall|k: int| 0 <= k < others(es, entry).len() ==> es.contains(#[trigger] others(es, entry)[k]),
    decreases es.len(),
{
    reveal(Seq::filter);
    if es.len() > 0 {
        let front = es.drop_last();
        let rest = others(front, entry);
        assert forall|i: int, j: int| 0 <= i < j < front.len() implies decoded(
            #[trigger] front[i],
        ).value != decoded(#[trigger] front[j]).value by {
            assert(front[i] == es[i] && front[j] == es[j]);
        }
        lemma_others_distinct(front, entry);
        assert forall|k: int| 0 <= k < rest.len() implies es.contains(#[trigger] rest[k]) && decoded(
            rest[k],
        ).value != decoded(es.last()).value by {
            let at = choose|at: int| 0 <= at < front.len() && front[at] == rest[k];
            assert(front.contains(rest[k]));
            assert(es[at] == rest[k]);
            assert(decoded(es[at]).value != decoded(es[es.len() - 1]).value);
        }
        if es.last() != entry {
            let all = others(es, entry);
            assert(all == rest.push(es.last()));
            assert(es[es.len() - 1] == es.last());
            assert forall|k: int| 0 <= k < all.len() implies es.contains(#[trigger] all[k]) by {
                if k < rest.len() {
                    assert(all[k] == rest[k]);
                }
            }
            assert forall|i: int, j: int| 0 <= i < j < all.len() implies decoded(
                #[trigger] all[i],
            ).value != decoded(#[trigger] all[j]).value by {
                assert(all[i] == rest[i]);
                if j < rest.len() {
                    assert(all[j] == rest[j]);
                }
            }
        }
    }
}

/// Where no list has a value twice, no access of a write in a consistent pool
/// brings one in again.
proof fn lemma_values_once_step(m: Contents, pool: Seq<OpView>, k: int, drawn: Seq<char>)
    requires
        consistent(m, pool),
        values_once(m),
        0 <= k < pool.len(),
    ensures
        values_once(next(pool[k], m, drawn).1),
{
    let op = pool[k];
    let m2 = next(op, m, drawn).1;
    if let Some((n, _)) = carried(op) {
        assert(consistent_on(m, pool, n.value));
        assert(op_ok(m, op, n.value));
    }
    lemma_keys();
    lemma_no_entries();
    assert forall|u: Seq<char>| distinct_values(#[trigger] entries(m2, u)) by {
        let es = entries(m, u);
        let es2 = entries(m2, u);
        assert(distinct_values(es)) by {
            assert forall|i: int, j: int| 0 <= i < j < es.len() implies decoded(
                #[trigger] es[i],
            ).value != decoded(#[trigger] es[j]).value by {
                assert(entries(m, u)[i] == es[i] && entries(m, u)[j] == es[j]);
            }
        }
        law_no_step_drops_an_entry(m, op, drawn, u);
        if let Some((n, _)) = carried(op) {
            law_decode_undoes_code(n);
            assert(!lists_value(m, u, n.value));
            assert forall|i: int| 0 <= i < es.len() implies decoded(#[trigger] es[i]).value
                != n.value by {
                assert(entries(m, u)[i] == es[i]);
            }
        }
        if let Some(n) = forgets(op) {
            lemma_others_distinct(es, coded(n));
        }
    }
    assert forall|u: Seq<char>, i: int, j: int|
        0 <= i < j < entries(m2, u).len() implies decoded(#[trigger] entries(m2, u)[i]).value
        != decoded(#[trigger] entries(m2, u)[j]).value by {
        assert(distinct_values(entries(m2, u)));
    }
}

/// No list ever has a value twice, however the accesses fall.
pub proof fn law_values_stay_once(
    m: Contents,
    pool: Seq<OpView>,
    schedule: Seq<(int, Seq<char>)>,
)
    requires
        consistent(m, pool),
        values_once(m),
        fair_draws(m, pool, schedule),
    ensures
        values_once(after(m, pool, schedule).0),
    decreases schedule.len(),
{
    if schedule.len() > 0 {
        let before = schedule.drop_last();
        law_values_stay_once(m, pool, before);
        law_every_schedule_keeps_consistency(m, pool, before);
        let (m1, pool1) = after(m, pool, before);
        lemma_values_once_step(m1, pool1, schedule.last().0, schedule.last().1);
    }
}

/// Where every listed NameID has its user as owner and no list has a value
/// twice, a value stands for one NameID of one user.
pub proof fn law_a_value_is_one_name_id(
    m: Contents,
    user_id: Seq<char>,
    i: int,
    other_user: Seq<char>,
    j: int,
)
    requires
        listed_are_owned(m),
        values_once(m),
        0 <= i < listed(m, user_id).len(),
        0 <= j < listed(m, other_user).len(),
        listed(m, user_id)[i].value == listed(m, other_user)[j].value,
    ensures
        user_id == other_user,
        i == j,
{
    let v = listed(m, user_id)[i].value;
    assert(decoded(entries(m, user_id)[i]).value == v);
    assert(decoded(entries(m, other_user)[j]).value == v);
    assert(lists_value(m, user_id, v) && lists_value(m, other_user, v));
    assert(owner(m, v) == Some(user_id) && owner(m, v) == Some(other_user));
}

/// Whether every write in a pool that brings in a persistent NameID looks for an
/// existing one first.
pub open spec fn all_look_first(pool: Seq<OpView>) -> bool {
    forall|i: int| 0 <= i < pool.len() ==> looks_first(#[trigger] pool[i])
}

/// At most one persistent NameID is ever listed for a user, a service provider
/// and an identity provider, however the accesses of the writers fall and
/// whatever they store, take out or draw. Where more are listed to begin with,
/// none is added; where nothing is taken out, none is lost.
pub proof fn law_never_two_persistent(
    m: Contents,
    pool: Seq<OpView>,
    schedule: Seq<(int, Seq<char>)>,
    user_id: Seq<char>,
    sp_name_qualifier: Option<Seq<char>>,
    name_qualifier: Option<Seq<char>>,
)
    requires
        all_look_first(pool),
        is_schedule(pool, schedule),
    ensures
        ({
            let (m2, pool2) = after(m, pool, schedule);
            let before = persistent_count(
                entries(m, user_id),
                sp_name_qualifier,
                name_qualifier,
            );
            let afterwards = persistent_count(
                entries(m2, user_id),
                sp_name_qualifier,
                name_qualifier,
            );
            &&& afterwards <= 1 || afterwards <= before
            &&& only_adds(pool) ==> before <= afterwards && only_adds(pool2)
            &&& all_look_first(pool2)
            &&& pool2.len() == pool.len()
        }),
    decreases schedule.len(),
{
    if schedule.len() > 0 {
        let earlier = schedule.drop_last();
        lemma_earlier(pool, schedule);
        law_never_two_persistent(m, pool, earlier, user_id, sp_name_qualifier, name_qualifier);
        let (m1, pool1) = after(m, pool, earlier);
        let (i, drawn) = schedule.last();
        assert(looks_first(pool1[i]));
        law_at_most_one_persistent(
            m1,
            pool1[i],
            drawn,
            user_id,
            sp_name_qualifier,
            name_qualifier,
        );
    }
}

proof fn lemma_count_some(
    es: Seq<Seq<char>>,
    i: int,
    sp_name_qualifier: Option<Seq<char>>,
    name_qualifier: Option<Seq<char>>,
)
    requires
        0 <= i < es.len(),
        is_persistent_for(decoded(es[i]), sp_name_qualifier, name_qualifier),
    ensures
        persistent_count(es, sp_name_qualifier, name_qualifier) >= 1,
    decreases es.len(),
{
    if i < es.len() - 1 {
        assert(es.drop_last()[i] == es[i]);
        lemma_count_some(es.drop_last(), i, sp_name_qualifier, name_qualifier);
    }
}

/// Where a write for a persistent NameID has ended, what it gave is in the
/// user's list.
proof fn lemma_ended_mint_is_listed(
    m: Contents,
    pool: Seq<OpView>,
    schedule: Seq<(int, Seq<char>)>,
    w: int,
    issue: IssueView,
) -> (at: int)
    requires
        only_adds(pool),
        is_schedule(pool, schedule),
        0 <= w < pool.len(),
        pool[w] == (OpView::MintRead { issue, candidate: None }),
        wants_persistent(issue),
        after(m, pool, schedule).1[w] is Done,
    ensures
        ({
            let (m2, pool2) = after(m, pool, schedule);
            let ns = listed(m2, issue.user_id);
            &&& 0 <= at < ns.len()
            &&& pool2[w] == (OpView::Done { result: Some(ns[at]) })
            &&& is_persistent_for(ns[at], issue.sp_name_qualifier, issue.name_qualifier)
        }),
{
    assert(mint_on_track(m, pool[w], issue));
    lemma_only_adds(m, pool, schedule, w, issue);
    let (m2, pool2) = after(m, pool, schedule);
    let ns = listed(m2, issue.user_id);
    let n = persistent_in(ns, issue.sp_name_qualifier, issue.name_qualifier)->0;
    lemma_persistent_in(ns, issue.sp_name_qualifier, issue.name_qualifier, n);
    choose|at: int| 0 <= at < ns.len() && ns[at] == n
}

/// A user has one persistent NameID for a service provider. All who ask for it,
/// one after the other or at once, get the same one, and exactly one is listed,
/// unless more were listed to begin with, to which none is added. This holds
/// whatever is stored at the start, however the accesses fall, and whatever else
/// is stored or drawn meanwhile, as long as nothing is taken out.
pub proof fn law_one_persistent_per_user_and_provider(
    m: Contents,
    pool: Seq<OpView>,
    schedule: Seq<(int, Seq<char>)>,
    a: int,
    b: int,
    issue: IssueView,
)
    requires
        only_adds(pool),
        all_look_first(pool),
        is_schedule(pool, schedule),
        wants_persistent(issue),
        0 <= a < pool.len(),
        0 <= b < pool.len(),
        pool[a] == (OpView::MintRead { issue, candidate: None }),
        pool[b] == (OpView::MintRead { issue, candidate: None }),
        after(m, pool, schedule).1[a] is Done,
        after(m, pool, schedule).1[b] is Done,
    ensures
        ({
            let (m2, pool2) = after(m, pool, schedule);
            let before = persistent_count(
                entries(m, issue.user_id),
                issue.sp_name_qualifier,
                issue.name_qualifier,
            );
            &&& persistent_count(
                entries(m2, issue.user_id),
                issue.sp_name_qualifier,
                issue.name_qualifier,
            ) == if before == 0 {
                1
            } else {
                before
            }
            &&& pool2[a] == pool2[b]
            &&& pool2[a] matches OpView::Done { result: Some(x) }
            &&& is_persistent_for(x, issue.sp_name_qualifier, issue.name_qualifier)
            &&& listed(m2, issue.user_id).contains(x)
        }),
{
    let (m2, pool2) = after(m, pool, schedule);
    law_concurrent_mints_agree(m, pool, schedule, a, b, issue);
    law_never_two_persistent(
        m,
        pool,
        schedule,
        issue.user_id,
        issue.sp_name_qualifier,
        issue.name_qualifier,
    );
    let i = lemma_ended_mint_is_listed(m, pool, schedule, a, issue);
    let es = entries(m2, issue.user_id);
    assert(decoded_all(es)[i] == decoded(es[i]));
    lemma_count_some(es, i, issue.sp_name_qualifier, issue.name_qualifier);
}

/// Whether a write is bringing in a persistent NameID with this value.
pub open spec fn mints(op: OpView, issue: IssueView, value: Seq<char>) -> bool {
    match op {
        OpView::MintRead { issue: i, candidate } => i == issue && (candidate matches Some(c)
            && c.value == value),
        OpView::MintLink { issue: i, candidate, .. } => i == issue && candidate.value == value,
        OpView::MintSwap { issue: i, candidate, .. } => i == issue && candidate.value == value,
        _ => false,
    }
}

/// Whether a value is that of a user's persistent NameID for the qualifiers, or
/// of one that a write is bringing in.
pub open spec fn is_held(
    m: Contents,
    pool: Seq<OpView>,
    issue: IssueView,
    value: Seq<char>,
) -> bool {
    ||| persistent_in(
        listed(m, issue.user_id),
        issue.sp_name_qualifier,
        issue.name_qualifier,
    ) matches Some(n) && n.value == value
    ||| exists|k: int| 0 <= k < pool.len() && mints(#[trigger] pool[k], issue, value)
}

/// Whether no value is held for both of two issues.
pub open spec fn held_apart(
    m: Contents,
    pool: Seq<OpView>,
    issue: IssueView,
    other: IssueView,
) -> bool {
    forall|value: Seq<char>|
        !(#[trigger] is_held(m, pool, issue, value) && is_held(m, pool, other, value))
}

/// Whether a write draws a value for an issue at its next access.
pub open spec fn draws_for(op: OpView, issue: IssueView) -> bool {
    op matches OpView::MintDraw { issue: i, .. } && i == issue
}

/// Whether no draw for one of two issues comes up with a value that is held for
/// the other.
pub open spec fn draws_apart(
    m: Contents,
    pool: Seq<OpView>,
    schedule: Seq<(int, Seq<char>)>,
    issue: IssueView,
    other: IssueView,
) -> bool
    decreases schedule.len(),
{
    schedule.len() > 0 ==> {
        let (m1, pool1) = after(m, pool, schedule.drop_last());
        let (i, drawn) = schedule.last();
        &&& draws_apart(m, pool, schedule.drop_last(), issue, other)
        &&& draws_for(pool1[i], issue) ==> !is_held(m1, pool1, other, drawn)
        &&& draws_for(pool1[i], other) ==> !is_held(m1, pool1, issue, drawn)
    }
}

/// A value comes to be held for an issue only by a draw for it.
proof fn lemma_held_from(
    m: Contents,
    pool: Seq<OpView>,
    k: int,
    drawn: Seq<char>,
    issue: IssueView,
    value: Seq<char>,
)
    requires
        only_adds(pool),
        all_look_first(pool),
        wants_persistent(issue),
        0 <= k < pool.len(),
        is_held(
            next(pool[k], m, drawn).1,
            pool.update(k, next(pool[k], m, drawn).0),
            issue,
            value,
        ),
    ensures
        is_held(m, pool, issue, value) || (draws_for(pool[k], issue) && drawn == value),
{
    let op = pool[k];
    let (op2, m2) = next(op, m, drawn);
    let pool2 = pool.update(k, op2);
    let spq = issue.sp_name_qualifier;
    let nq = issue.name_qualifier;
    assert(!takes_out(op) && looks_first(op));
    law_no_step_drops_an_entry(m, op, drawn, issue.user_id);
    let es = entries(m, issue.user_id);
    if let Some(n) = persistent_in(listed(m2, issue.user_id), spq, nq) {
        if n.value == value {
            if let Some((added, user_id)) = carried(op) {
                law_decode_undoes_code(added);
                assert(decoded_all(es.push(coded(added))) == decoded_all(es).push(
                    decoded(coded(added)),
                ));
                lemma_persistent_in(decoded_all(es), spq, nq, decoded(coded(added)));
                if persistent_in(decoded_all(es), spq, nq) is None {
                    assert(mints(pool[k], issue, value));
                }
            }
        }
    }
    if !is_held(m, pool, issue, value) {
        if exists|j: int| 0 <= j < pool2.len() && mints(#[trigger] pool2[j], issue, value) {
            let j = choose|j: int| 0 <= j < pool2.len() && mints(#[trigger] pool2[j], issue, value);
            if j != k {
                assert(pool2[j] == pool[j]);
                assert(mints(pool[j], issue, value));
            } else {
                assert(!mints(pool[k], issue, value));
            }
        }
    }
}

/// What is held for two issues stays apart.
proof fn lemma_held_apart(
    m: Contents,
    pool: Seq<OpView>,
    schedule: Seq<(int, Seq<char>)>,
    issue: IssueView,
    other: IssueView,
)
    requires
        only_adds(pool),
        all_look_first(pool),
        is_schedule(pool, schedule),
        held_apart(m, pool, issue, other),
        draws_apart(m, pool, schedule, issue, other),
        wants_persistent(issue),
        wants_persistent(other),
        other != issue,
    ensures
        held_apart(after(m, pool, schedule).0, after(m, pool, schedule).1, issue, other),
    decreases schedule.len(),
{
    if schedule.len() > 0 {
        let earlier = schedule.drop_last();
        lemma_earlier(pool, schedule);
        lemma_held_apart(m, pool, earlier, issue, other);
        let (m1, pool1) = after(m, pool, earlier);
        let (m2, pool2) = after(m, pool, schedule);
        let (i, drawn) = schedule.last();
        law_never_two_persistent(
            m,
            pool,
            earlier,
            issue.user_id,
            issue.sp_name_qualifier,
            issue.name_qualifier,
        );
        assert forall|value: Seq<char>|
            !(#[trigger] is_held(m2, pool2, issue, value) && is_held(m2, pool2, other, value)) by {
            if is_held(m2, pool2, issue, value) && is_held(m2, pool2, other, value) {
                lemma_held_from(m1, pool1, i, drawn, issue, value);
                lemma_held_from(m1, pool1, i, drawn, other, value);
            }
        }
    }
}

/// Persistent NameIDs for different users, service providers or identity
/// providers have different values, whatever is stored at the start and however
/// the accesses fall: unless they were the same to begin with, or a draw for one
/// comes up with the value of the other.
pub proof fn law_other_provider_other_value(
    m: Contents,
    pool: Seq<OpView>,
    schedule: Seq<(int, Seq<char>)>,
    a: int,
    issue: IssueView,
    b: int,
    other: IssueView,
)
    requires
        only_adds(pool),
        all_look_first(pool),
        is_schedule(pool, schedule),
        held_apart(m, pool, issue, other),
        draws_apart(m, pool, schedule, issue, other),
        wants_persistent(issue),
        wants_persistent(other),
        other != issue,
        0 <= a < pool.len(),
        0 <= b < pool.len(),
        pool[a] == (OpView::MintRead { issue, candidate: None }),
        pool[b] == (OpView::MintRead { issue: other, candidate: None }),
        after(m, pool, schedule).1[a] is Done,
        after(m, pool, schedule).1[b] is Done,
    ensures
        ({
            let pool2 = after(m, pool, schedule).1;
            &&& pool2[a] matches OpView::Done { result: Some(x) }
            &&& pool2[b] matches OpView::Done { result: Some(y) }
            &&& x.value != y.value
        }),
{
    let (m2, pool2) = after(m, pool, schedule);
    lemma_only_adds(m, pool, schedule, a, issue);
    lemma_only_adds(m, pool, schedule, b, other);
    lemma_held_apart(m, pool, schedule, issue, other);
    let x = persistent_in(
        listed(m2, issue.user_id),
        issue.sp_name_qualifier,
        issue.name_qualifier,
    )->0;
    assert(is_held(m2, pool2, issue, x.value));
    assert(!is_held(m2, pool2, other, x.value));
}

/// Whether a write is at its beginning: a NameID is to be issued, a persistent
/// one is asked for, or a user is to be forgotten.
pub open spec fn is_fresh(op: OpView) -> bool {
    op is IssueDraw || op is ClearRead || (op matches OpView::MintRead { candidate, .. }
        && candidate is None)
}

/// Where a user is forgotten while NameIDs are issued and persistent ones asked
/// for, by any number of writers at once, then when all have ended a value is
/// fully there or fully gone: it is in a user's list exactly where the user owns
/// it. It takes no more than that it was so at the start, and that a draw which
/// comes up with this value finds it not in use.
pub proof fn law_racing_writers_settle_a_value(
    m: Contents,
    pool: Seq<OpView>,
    schedule: Seq<(int, Seq<char>)>,
    value: Seq<char>,
)
    requires
        settled_value(m, value),
        forall|i: int| 0 <= i < pool.len() ==> is_fresh(#[trigger] pool[i]),
        is_schedule(pool, schedule),
        finds_unused(m, pool, schedule, value),
        forall|i: int|
            0 <= i < pool.len() ==> #[trigger] after(m, pool, schedule).1[i] is Done,
    ensures
        settled_value(after(m, pool, schedule).0, value),
{
    lemma_fresh_pool(m, pool, value);
    law_every_schedule_keeps_a_value(m, pool, schedule, value);
}

proof fn lemma_fresh_pool(m: Contents, pool: Seq<OpView>, value: Seq<char>)
    requires
        settled_value(m, value),
        forall|i: int| 0 <= i < pool.len() ==> is_fresh(#[trigger] pool[i]),
    ensures
        consistent_on(m, pool, value),
{
    if let Some(u) = owner(m, value) {
        assert(lists_value(m, u, value));
    }
    assert forall|i: int| 0 <= i < pool.len() implies op_ok(m, #[trigger] pool[i], value)
        && carried(pool[i]) is None by {
        assert(is_fresh(pool[i]));
    }
}

/// Whether every write in a pool that carries a value would list it as one and
/// the same entry.
pub open spec fn carried_only_as(
    pool: Seq<OpView>,
    value: Seq<char>,
    entry: Seq<char>,
) -> bool {
    forall|i: int|
        0 <= i < pool.len() && carries(#[trigger] pool[i], value) ==> coded((carried(pool[i])->0).0)
            == entry
}

/// The issue that a write is about to draw a value for.
pub open spec fn drawn_for(op: OpView) -> Option<IssueView> {
    match op {
        OpView::IssueDraw(issue) => Some(issue),
        OpView::MintDraw { issue, .. } => Some(issue),
        _ => None,
    }
}

/// Whether every draw of a schedule that comes up with a value is for a NameID
/// that is stored as one and the same entry.
pub open spec fn drawn_only_as(
    m: Contents,
    pool: Seq<OpView>,
    schedule: Seq<(int, Seq<char>)>,
    value: Seq<char>,
    entry: Seq<char>,
) -> bool
    decreases schedule.len(),
{
    schedule.len() > 0 ==> {
        let pool1 = after(m, pool, schedule.drop_last()).1;
        let (i, drawn) = schedule.last();
        &&& drawn_only_as(m, pool, schedule.drop_last(), value, entry)
        &&& drawn_for(pool1[i]) matches Some(issue) ==> (drawn == value ==> coded(
            issue.name_id(value),
        ) == entry)
    }
}

proof fn lemma_only_as_step(
    m: Contents,
    op: OpView,
    drawn: Seq<char>,
    value: Seq<char>,
    entry: Seq<char>,
)
    requires
        listed_only_as(m, value, entry),
        carries(op, value) ==> coded((carried(op)->0).0) == entry,
    ensures
        listed_only_as(next(op, m, drawn).1, value, entry),
{
    let m2 = next(op, m, drawn).1;
    lemma_keys();
    lemma_no_entries();
    assert forall|u: Seq<char>, i: int|
        0 <= i < entries(m2, u).len() && decoded(#[trigger] entries(m2, u)[i]).value
            == value implies entries(m2, u)[i] == entry by {
        let es = entries(m, u);
        let e = entries(m2, u)[i];
        law_no_step_drops_an_entry(m, op, drawn, u);
        if let Some((n, _)) = carried(op) {
            law_decode_undoes_code(n);
            if entries(m2, u) != es && i < es.len() {
                assert(es.push(coded(n))[i] == es[i]);
            }
        }
        if let Some(n) = forgets(op) {
            lemma_others(es, coded(n));
            if entries(m2, u) != es {
                assert(others(es, coded(n)).contains(e));
            }
        }
        if es.contains(e) {
            let k = choose|k: int| 0 <= k < es.len() && es[k] == e;
            assert(entries(m, u)[k] == e);
        } else {
            assert(entries(m2, u) == es ==> es.contains(es[i]));
        }
    }
}

proof fn lemma_only_as(
    m: Contents,
    pool: Seq<OpView>,
    schedule: Seq<(int, Seq<char>)>,
    value: Seq<char>,
    entry: Seq<char>,
)
    requires
        listed_only_as(m, value, entry),
        carried_only_as(pool, value, entry),
        is_schedule(pool, schedule),
        drawn_only_as(m, pool, schedule, value, entry),
    ensures
        ({
            let (m2, pool2) = after(m, pool, schedule);
            &&& pool2.len() == pool.len()
            &&& listed_only_as(m2, value, entry)
            &&& carried_only_as(pool2, value, entry)
        }),
    decreases schedule.len(),
{
    if schedule.len() > 0 {
        let earlier = schedule.drop_last();
        lemma_earlier(pool, schedule);
        lemma_only_as(m, pool, earlier, value, entry);
        let (m1, pool1) = after(m, pool, earlier);
        let (m2, pool2) = after(m, pool, schedule);
        let (i, drawn) = schedule.last();
        lemma_only_as_step(m1, pool1[i], drawn, value, entry);
        assert forall|k: int|
            0 <= k < pool2.len() && carries(#[trigger] pool2[k], value) implies coded(
            (carried(pool2[k])->0).0,
        ) == entry by {
            if k != i {
                assert(pool2[k] == pool1[k]);
            } else if carries(pool1[i], value) {
                assert(coded((carried(pool1[i])->0).0) == entry);
            }
        }
    }
}

/// Where a user is forgotten while NameIDs are issued and persistent ones asked
/// for, by any number of writers at once, then when all have ended a NameID is
/// fully there or fully gone: it is among a user's NameIDs exactly where its
/// value resolves to the user. `entry` is the NameID as it is stored; it takes
/// no more than that its value agreed at the start, and that the value is that
/// of no other NameID.
pub proof fn law_racing_writers_leave_a_name_id_whole(
    m: Contents,
    pool: Seq<OpView>,
    schedule: Seq<(int, Seq<char>)>,
    entry: Seq<char>,
    user_id: Seq<char>,
)
    requires
        settled_value(m, decoded(entry).value),
        listed_only_as(m, decoded(entry).value, entry),
        forall|i: int| 0 <= i < pool.len() ==> is_fresh(#[trigger] pool[i]),
        is_schedule(pool, schedule),
        finds_unused(m, pool, schedule, decoded(entry).value),
        drawn_only_as(m, pool, schedule, decoded(entry).value, entry),
        forall|i: int|
            0 <= i < pool.len() ==> #[trigger] after(m, pool, schedule).1[i] is Done,
    ensures
        ({
            let m2 = after(m, pool, schedule).0;
            listed(m2, user_id).contains(decoded(entry)) <==> owner(m2, decoded(entry).value)
                == Some(user_id)
        }),
{
    let value = decoded(entry).value;
    let m2 = after(m, pool, schedule).0;
    lemma_fresh_pool(m, pool, value);
    assert(carried_only_as(pool, value, entry)) by {
        assert forall|i: int| 0 <= i < pool.len() implies !carries(#[trigger] pool[i], value) by {
            assert(is_fresh(pool[i]));
        }
    }
    law_racing_writers_settle_a_value(m, pool, schedule, value);
    lemma_only_as(m, pool, schedule, value, entry);
    let es = entries(m2, user_id);
    if listed(m2, user_id).contains(decoded(entry)) {
        let k = choose|k: int|
            0 <= k < listed(m2, user_id).len() && listed(m2, user_id)[k] == decoded(entry);
        assert(decoded(entries(m2, user_id)[k]).value == value);
        assert(lists_value(m2, user_id, value));
    }
    if owner(m2, value) == Some(user_id) {
        assert(lists_value(m2, user_id, value));
        let k = choose|k: int|
            0 <= k < es.len() && decoded(#[trigger] entries(m2, user_id)[k]).value == value;
        assert(entries(m2, user_id)[k] == entry);
        assert(listed(m2, user_id)[k] == decoded(entry));
    }
}

proof fn lemma_first_access(
    m: Contents,
    pool: Seq<OpView>,
    first: (int, Seq<char>),
    rest: Seq<(int, Seq<char>)>,
)
    ensures
        ({
            let (op2, m2) = next(pool[first.0], m, first.1);
            after(m, pool, seq![first] + rest) == after(m2, pool.update(first.0, op2), rest)
        }),
    decreases rest.len(),
{
    let all = seq![first] + rest;
    assert(all.last() == if rest.len() > 0 {
        rest.last()
    } else {
        first
    });
    if rest.len() > 0 {
        lemma_first_access(m, pool, first, rest.drop_last());
        assert(all.drop_last() == seq![first] + rest.drop_last());
    } else {
        assert(all.drop_last() == Seq::<(int, Seq<char>)>::empty());
        assert(after(m, pool, all.drop_last()) == (m, pool));
    }
}

/// A write that is carried through to its end is one schedule among the others:
/// the one in which no other writer acts.
pub proof fn law_a_run_is_a_schedule(
    m: Contents,
    pool: Seq<OpView>,
    w: int,
    drawn: Seq<char>,
) -> (schedule: Seq<(int, Seq<char>)>)
    requires
        0 <= w < pool.len(),
        settled(pool[w], m, drawn),
    ensures
        forall|k: int| 0 <= k < schedule.len() ==> #[trigger] schedule[k] == (w, drawn),
        after(m, pool, schedule) == (
            run(pool[w], m, drawn).1,
            pool.update(w, OpView::Done { result: run(pool[w], m, drawn).0 }),
        ),
    decreases rank(pool[w], m),
{
    if pool[w] is Done {
        assert(pool.update(w, pool[w]) == pool);
        Seq::empty()
    } else {
        lemma_rank(pool[w], m, drawn);
        let (op2, m2) = next(pool[w], m, drawn);
        let pool2 = pool.update(w, op2);
        let rest = law_a_run_is_a_schedule(m2, pool2, w, drawn);
        lemma_first_access(m, pool, (w, drawn), rest);
        assert(pool2.update(w, OpView::Done { result: run(op2, m2, drawn).0 }) == pool.update(
            w,
            OpView::Done { result: run(op2, m2, drawn).0 },
        ));
        seq![(w, drawn)] + rest
    }
}

/// The value that a write which issues a NameID has come up with, if it has.
pub open spec fn value_come_up(op: OpView) -> Option<Seq<char>> {
    match op {
        OpView::StoreLink { name_id, .. } => Some(name_id.value),
        OpView::AppendRead { name_id, .. } => Some(name_id.value),
        OpView::AppendSwap { name_id, .. } => Some(name_id.value),
        OpView::Done { result } => match result {
            Some(n) => Some(n.value),
            None => None,
        },
        _ => None,
    }
}

/// How far a write that issues a NameID is: about to draw, about to store what
/// there is to store, or done, with the NameID in the user's list.
pub open spec fn issuing(m: Contents, op: OpView, user_id: Seq<char>) -> bool {
    match op {
        OpView::IssueDraw(issue) => issue.user_id == user_id,
        OpView::StoreLink { user_id: u, name_id } => u == user_id && has_content(name_id),
        OpView::AppendRead { user_id: u, name_id } => u == user_id && has_content(name_id),
        OpView::AppendSwap { user_id: u, name_id, .. } => u == user_id && has_content(name_id),
        OpView::Done { result } => result matches Some(n) && lists_value(m, user_id, n.value),
        _ => false,
    }
}

/// Nothing that takes nothing out makes a listed value unlisted.
proof fn lemma_listed_stays(
    m: Contents,
    op: OpView,
    drawn: Seq<char>,
    user_id: Seq<char>,
    value: Seq<char>,
)
    requires
        !takes_out(op),
        lists_value(m, user_id, value),
    ensures
        lists_value(next(op, m, drawn).1, user_id, value),
{
    law_no_step_drops_an_entry(m, op, drawn, user_id);
    let es = entries(m, user_id);
    let es2 = entries(next(op, m, drawn).1, user_id);
    let i = choose|i: int|
        0 <= i < es.len() && decoded(#[trigger] entries(m, user_id)[i]).value == value;
    assert(es2[i] == es[i]);
    assert(decoded(entries(next(op, m, drawn).1, user_id)[i]).value == value);
}

proof fn lemma_issuing_step(m: Contents, op: OpView, drawn: Seq<char>, user_id: Seq<char>)
    requires
        issuing(m, op, user_id),
        op is IssueDraw ==> drawn.len() > 0,
    ensures
        issuing(next(op, m, drawn).1, next(op, m, drawn).0, user_id),
        value_come_up(op) is Some ==> value_come_up(next(op, m, drawn).0) == value_come_up(op),
{
    let m2 = next(op, m, drawn).1;
    let es = entries(m, user_id);
    match op {
        OpView::IssueDraw(issue) => {
            lemma_has_content(issue.name_id(drawn));
        },
        OpView::AppendRead { name_id, .. } => {
            law_decode_undoes_code(name_id);
            if es.contains(coded(name_id)) {
                let k = choose|k: int| 0 <= k < es.len() && es[k] == coded(name_id);
                assert(decoded(entries(m, user_id)[k]).value == name_id.value);
            }
        },
        OpView::AppendSwap { name_id, seen, .. } => {
            law_decode_undoes_code(name_id);
            if next(op, m, drawn).0 is Done {
                lemma_append_lists(m, user_id, name_id);
                let k = es.len() as int;
                assert(entries(m2, user_id)[k] == coded(name_id));
                assert(decoded(entries(m2, user_id)[k]).value == name_id.value);
            }
        },
        _ => {},
    }
}

proof fn lemma_issues_differ(
    m: Contents,
    pool: Seq<OpView>,
    schedule: Seq<(int, Seq<char>)>,
    a: int,
    b: int,
    first: IssueView,
    second: IssueView,
)
    requires
        only_adds(pool),
        fair_draws(m, pool, schedule),
        0 <= a < pool.len(),
        0 <= b < pool.len(),
        a != b,
        pool[a] == OpView::IssueDraw(first),
        pool[b] == OpView::IssueDraw(second),
    ensures
        ({
            let (m2, pool2) = after(m, pool, schedule);
            &&& pool2.len() == pool.len()
            &&& only_adds(pool2)
            &&& issuing(m2, pool2[a], first.user_id)
            &&& issuing(m2, pool2[b], second.user_id)
            &&& value_come_up(pool2[a]) is Some && value_come_up(pool2[b]) is Some
                ==> value_come_up(pool2[a]) != value_come_up(pool2[b])
        }),
    decreases schedule.len(),
{
    if schedule.len() > 0 {
        let before = schedule.drop_last();
        lemma_issues_differ(m, pool, before, a, b, first, second);
        let (m1, pool1) = after(m, pool, before);
        let (i, drawn) = schedule.last();
        let (op2, m2) = next(pool1[i], m1, drawn);
        let pool2 = pool1.update(i, op2);
        assert(!takes_out(pool1[i]));
        assert(!takes_out(op2));
        if i == a {
            lemma_issuing_step(m1, pool1[a], drawn, first.user_id);
        } else if let OpView::Done { result: Some(n) } = pool1[a] {
            lemma_listed_stays(m1, pool1[i], drawn, first.user_id, n.value);
        }
        if i == b {
            lemma_issuing_step(m1, pool1[b], drawn, second.user_id);
        } else if let OpView::Done { result: Some(n) } = pool1[b] {
            lemma_listed_stays(m1, pool1[i], drawn, second.user_id, n.value);
        }
        if pool1[i] is IssueDraw && (i == a || i == b) {
            let j = if i == a {
                b
            } else {
                a
            };
            let user_id = if i == a {
                second.user_id
            } else {
                first.user_id
            };
            assert(unused(m1, pool1, drawn));
            assert(!lists_value(m1, user_id, drawn));
            assert(value_come_up(pool1[j]) != Some(drawn)) by {
                assert(carried(pool1[j]) matches Some((n, _)) ==> n.value != drawn);
            }
        }
    }
}

/// Two NameIDs that are issued never have the same value, however the accesses
/// fall and whatever else is stored before, between and after.
pub proof fn law_issued_values_always_differ(
    m: Contents,
    pool: Seq<OpView>,
    schedule: Seq<(int, Seq<char>)>,
    a: int,
    b: int,
    first: IssueView,
    second: IssueView,
)
    requires
        only_adds(pool),
        fair_draws(m, pool, schedule),
        0 <= a < pool.len(),
        0 <= b < pool.len(),
        a != b,
        pool[a] == OpView::IssueDraw(first),
        pool[b] == OpView::IssueDraw(second),
        after(m, pool, schedule).1[a] is Done,
        after(m, pool, schedule).1[b] is Done,
    ensures
        ({
            let pool2 = after(m, pool, schedule).1;
            &&& pool2[a] matches OpView::Done { result: Some(x) }
            &&& pool2[b] matches OpView::Done { result: Some(y) }
            &&& x.value != y.value
        }),
{
    lemma_issues_differ(m, pool, schedule, a, b, first, second);
}

} // verus!
