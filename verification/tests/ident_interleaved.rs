//! Several writers of the identity database, whose store accesses fall between
//! each other.

use gamlastan::idp::ident::forward::REVERSE_PREFIX;
use gamlastan::idp::ident::mint::draw_value;
use gamlastan::idp::ident::{
    decode_name_id, IdentDb, IdentOp, IdentityStore, InMemoryIdentityStore, Issue,
};
use gamlastan::saml::constants;
use gamlastan::saml::name_id::NameId;

const IDP: &str = "https://idp.example.com";
const SP: &str = "https://sp.example.com";

fn issue(format: &str, sp: &str) -> Issue {
    Issue {
        user_id: "alice".to_string(),
        format: format.to_string(),
        sp_name_qualifier: Some(sp.to_string()),
        name_qualifier: Some(IDP.to_string()),
    }
}

fn mint(sp: &str) -> IdentOp {
    IdentOp::MintRead {
        issue: issue(constants::NAMEID_PERSISTENT, sp),
        candidate: None,
    }
}

fn transient(sp: &str) -> IdentOp {
    IdentOp::IssueDraw(issue(constants::NAMEID_TRANSIENT, sp))
}

fn clear() -> IdentOp {
    IdentOp::ClearRead {
        user_id: "alice".to_string(),
    }
}

fn step(op: IdentOp, store: &mut InMemoryIdentityStore) -> IdentOp {
    let drawn = draw_value("format", None, None, None);
    op.step(store, &drawn)
}

fn finish(mut op: IdentOp, store: &mut InMemoryIdentityStore) -> Option<NameId> {
    loop {
        match op {
            IdentOp::Done { result } => return result,
            other => op = step(other, store),
        }
    }
}

/// A small generator of schedules.
fn next(seed: &mut u64) -> u64 {
    *seed = seed
        .wrapping_mul(6364136223846793005)
        .wrapping_add(1442695040888963407);
    *seed >> 33
}

/// Run all writers to their end, in an order that the seed gives.
fn run_all(
    ops: Vec<IdentOp>,
    store: &mut InMemoryIdentityStore,
    seed: &mut u64,
) -> Vec<Option<NameId>> {
    let mut slots: Vec<Option<IdentOp>> = ops.into_iter().map(Some).collect();
    let mut results: Vec<Option<NameId>> = slots.iter().map(|_| None).collect();
    let mut left: Vec<usize> = (0..slots.len()).collect();
    while !left.is_empty() {
        let at = (next(seed) as usize) % left.len();
        let i = left[at];
        match step(slots[i].take().unwrap(), store) {
            IdentOp::Done { result } => {
                results[i] = result;
                left.remove(at);
            }
            other => slots[i] = Some(other),
        }
    }
    results
}

fn listed(store: &InMemoryIdentityStore) -> Vec<NameId> {
    match store.get("user:alice") {
        Some(joined) => joined
            .split(' ')
            .filter(|s| !s.is_empty())
            .map(decode_name_id)
            .collect(),
        None => vec![],
    }
}

fn owner(store: &InMemoryIdentityStore, value: &str) -> Option<String> {
    store.get(&format!("{REVERSE_PREFIX}{value}"))
}

#[test]
fn concurrent_persistent_requests_for_the_same_user_and_sp_mint_only_one_identifier() {
    for round in 0..50u64 {
        let mut seed = round;
        let mut store = InMemoryIdentityStore::new();
        let ops: Vec<IdentOp> = (0..16).map(|_| mint(SP)).collect();
        let values: Vec<String> = run_all(ops, &mut store, &mut seed)
            .into_iter()
            .map(|r| r.unwrap().value)
            .collect();
        let first = &values[0];
        assert!(
            values.iter().all(|v| v == first),
            "all requests must resolve to the same identifier, got: {values:?}"
        );
        let persistent: Vec<_> = listed(&store)
            .into_iter()
            .filter(|nid| nid.format.as_deref() == Some(constants::NAMEID_PERSISTENT))
            .collect();
        assert_eq!(persistent.len(), 1);
        assert_eq!(owner(&store, first).as_deref(), Some("alice"));
    }
}

#[test]
fn parallel_requests_agree_even_where_their_draws_are_the_same() {
    for round in 0..50u64 {
        let mut seed = round;
        let mut store = InMemoryIdentityStore::new();
        let mut slots: Vec<IdentOp> = (0..4).map(|_| mint(SP)).collect();
        while slots.iter().any(|op| !matches!(op, IdentOp::Done { .. })) {
            let i = (next(&mut seed) as usize) % slots.len();
            let op = slots.swap_remove(i);
            let drawn = if next(&mut seed) % 2 == 0 { "one" } else { "two" };
            slots.push(op.step(&mut store, drawn));
        }
        let values: Vec<String> = slots
            .into_iter()
            .map(|op| match op {
                IdentOp::Done { result } => result.unwrap().value,
                other => panic!("expected Done, got {other:?}"),
            })
            .collect();
        assert!(values.iter().all(|v| *v == values[0]));
        assert_eq!(listed(&store).len(), 1);
        assert_eq!(listed(&store)[0].value, values[0]);
    }
}

#[test]
fn a_race_leaves_each_name_id_whole_in_a_store_that_is_not() {
    for round in 0..50u64 {
        let mut seed = round;
        let mut store = InMemoryIdentityStore::new();
        // an owner of nothing, and a list entry that nobody owns
        store.set(&format!("{REVERSE_PREFIX}stray"), "alice".to_string());
        store.set("user:alice", "0=orphan".to_string());
        let mut ops = vec![clear()];
        for i in 0..4 {
            ops.push(transient(&format!("{SP}/{i}")));
            ops.push(mint(SP));
        }
        let results = run_all(ops, &mut store, &mut seed);
        let present: Vec<String> = listed(&store).into_iter().map(|n| n.value).collect();
        for n in results.into_iter().flatten() {
            assert_eq!(
                present.contains(&n.value),
                owner(&store, &n.value).as_deref() == Some("alice")
            );
        }
        assert_eq!(owner(&store, "stray").as_deref(), Some("alice"));
    }
}

#[test]
fn each_service_provider_gets_its_own_persistent_value() {
    for round in 0..50u64 {
        let mut seed = round;
        let mut store = InMemoryIdentityStore::new();
        let ops: Vec<IdentOp> = (0..12).map(|i| mint(&format!("{SP}/{}", i % 3))).collect();
        let values: Vec<String> = run_all(ops, &mut store, &mut seed)
            .into_iter()
            .map(|r| r.unwrap().value)
            .collect();
        for i in 0..12 {
            for j in 0..12 {
                assert_eq!(values[i] == values[j], i % 3 == j % 3);
            }
        }
        assert_eq!(listed(&store).len(), 3);
    }
}

#[test]
fn issued_values_differ_whatever_comes_between() {
    let mut seed = 7;
    let mut store = InMemoryIdentityStore::new();
    let ops: Vec<IdentOp> = (0..10)
        .map(|i| if i % 2 == 0 { transient(SP) } else { mint(SP) })
        .collect();
    let results = run_all(ops, &mut store, &mut seed);
    let mut values: Vec<String> = (0..10)
        .filter(|i| i % 2 == 0)
        .map(|i| results[i].as_ref().unwrap().value.clone())
        .collect();
    values.sort();
    values.dedup();
    assert_eq!(values.len(), 5);
}

#[test]
fn concurrent_persistent_and_transient_issuance_do_not_clobber_each_other() {
    for round in 0..50u64 {
        let mut seed = round;
        let mut store = InMemoryIdentityStore::new();
        let mut ops: Vec<IdentOp> = (0..8).map(|_| mint(SP)).collect();
        for i in 0..8 {
            ops.push(transient(&format!("{SP}/{i}")));
        }
        run_all(ops, &mut store, &mut seed);
        let entries = listed(&store);
        let persistent = entries
            .iter()
            .filter(|nid| nid.format.as_deref() == Some(constants::NAMEID_PERSISTENT))
            .count();
        let transient = entries
            .iter()
            .filter(|nid| nid.format.as_deref() == Some(constants::NAMEID_TRANSIENT))
            .count();
        assert_eq!(persistent, 1, "persistent entry must survive: {entries:?}");
        assert_eq!(
            transient, 8,
            "every transient issuance must survive: {entries:?}"
        );
    }
}

#[test]
fn concurrent_remove_local_does_not_orphan_a_racing_writers_reverse_key() {
    for round in 0..200u64 {
        let mut seed = round;
        let mut store = InMemoryIdentityStore::new();
        finish(mint(SP), &mut store);
        let mut ops = vec![clear()];
        for i in 0..4 {
            ops.push(transient(&format!("{SP}/{round}/{i}")));
        }
        let written: Vec<NameId> = run_all(ops, &mut store, &mut seed)
            .into_iter()
            .flatten()
            .collect();
        assert_eq!(written.len(), 4);
        let present: Vec<String> = listed(&store).into_iter().map(|n| n.value).collect();
        for nid in &written {
            assert_eq!(
                present.contains(&nid.value),
                owner(&store, &nid.value).as_deref() == Some("alice"),
                "round {round}: NameID {:?} must be either fully present or fully absent",
                nid.value
            );
        }
    }
}

#[test]
fn get_or_create_persistent_reverse_key_survives_a_racing_remove_local() {
    let mut store = InMemoryIdentityStore::new();
    // read, draw, write the owner: stop before the swap into the list
    let mut op = mint(SP);
    for _ in 0..3 {
        op = step(op, &mut store);
    }
    assert!(matches!(op, IdentOp::MintSwap { .. }));
    finish(clear(), &mut store);
    let minted = finish(op, &mut store).unwrap();
    assert!(listed(&store).iter().any(|n| n.value == minted.value));
    assert_eq!(owner(&store, &minted.value).as_deref(), Some("alice"));
}

#[test]
fn store_reverse_key_survives_a_racing_remove_local() {
    let mut store = InMemoryIdentityStore::new();
    // draw, write the owner: stop before the list is read
    let mut op = transient(SP);
    for _ in 0..2 {
        op = step(op, &mut store);
    }
    assert!(matches!(op, IdentOp::AppendRead { .. }));
    finish(clear(), &mut store);
    let minted = finish(op, &mut store).unwrap();
    assert!(listed(&store).iter().any(|n| n.value == minted.value));
    assert_eq!(owner(&store, &minted.value).as_deref(), Some("alice"));
}

#[test]
fn an_unused_candidate_leaves_no_owner_behind() {
    let mut store = InMemoryIdentityStore::new();
    let mut slow = mint(SP);
    for _ in 0..3 {
        slow = step(slow, &mut store);
    }
    let unused = match &slow {
        IdentOp::MintSwap { candidate, .. } => candidate.value.clone(),
        other => panic!("expected MintSwap, got {other:?}"),
    };
    let fast = finish(mint(SP), &mut store).unwrap();
    let given = finish(slow, &mut store).unwrap();
    assert_eq!(fast, given);
    assert_ne!(unused, given.value);
    assert_eq!(owner(&store, &unused), None);
}

#[test]
fn a_draw_that_is_taken_is_drawn_again() {
    let mut store = InMemoryIdentityStore::new();
    store.set("nameid:taken", "bob".to_string());
    let op = transient(SP).step(&mut store, "taken");
    assert!(matches!(op, IdentOp::IssueDraw(_)));
    let op = op.step(&mut store, "free");
    assert!(matches!(op, IdentOp::StoreLink { .. }));
    assert_eq!(finish(op, &mut store).unwrap().value, "free");
}

#[test]
fn two_writers_that_forget_the_same_name_id_both_end() {
    let mut db = IdentDb::in_memory(IDP);
    let nid = db.persistent_nameid("alice", Some(SP));
    let mut store = InMemoryIdentityStore::new();
    store.set(&format!("nameid:{}", nid.value), "alice".to_string());
    store.set(
        "user:alice",
        gamlastan::idp::ident::code_name_id(&nid) + " 4=other",
    );
    let forget = || IdentOp::ForgetFind {
        name_id: nid.clone(),
    };
    let mut seed = 7;
    run_all(vec![forget(), forget()], &mut store, &mut seed);
    assert_eq!(owner(&store, &nid.value), None);
    let left: Vec<String> = listed(&store).into_iter().map(|n| n.value).collect();
    assert_eq!(left, vec!["other".to_string()]);
}

#[test]
fn swapping_needs_the_expected_value() {
    let mut store = InMemoryIdentityStore::new();
    assert!(!store.compare_and_swap("k", Some("a"), "b"));
    assert!(store.compare_and_swap("k", None, "a"));
    assert!(!store.compare_and_swap("k", None, "b"));
    assert!(store.compare_and_swap("k", Some("a"), "b"));
    assert_eq!(store.get("k").as_deref(), Some("b"));
    store.remove("k");
    assert_eq!(store.get("k"), None);
}
