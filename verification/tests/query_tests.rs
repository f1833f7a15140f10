use agent_chain::chain::{ActionPayload, ActionType, HashChain, LinkType, action_hash};
use agent_chain::hash::{ContentHash, HashKind};
use agent_chain::query::{ChainFilter, ChainWalkError, get_agent_activity};

fn agent(n: u64) -> ContentHash {
    ContentHash { kind: HashKind::AgentKey, d0: n, d1: 0, d2: 0, d3: 0 }
}

fn entry_ref(n: u64) -> ContentHash {
    ContentHash { kind: HashKind::Entry, d0: n, d1: 1, d2: 2, d3: 3 }
}

fn chain_of(n: u64) -> HashChain {
    let mut c = HashChain::new(agent(1));
    for k in 0..n {
        c.append(ActionPayload::EntryCreate { entry: entry_ref(k) }, 100 + k);
    }
    c
}

#[test]
fn depth_two_returns_top_and_two_ancestors_in_order() {
    let c = chain_of(5);
    let top = action_hash(c.head().expect("chain has a head"));
    let filter = ChainFilter { max_depth: Some(2), action_types: None };
    let acts = get_agent_activity(&c, top, &filter).expect("top is on the chain");
    assert_eq!(acts.len(), 3);
    assert_eq!(acts[0].seq, 4);
    assert_eq!(acts[1].seq, 3);
    assert_eq!(acts[2].seq, 2);
}

#[test]
fn unbounded_walk_reaches_genesis_with_no_gaps() {
    let c = chain_of(6);
    let top = action_hash(c.head().expect("chain has a head"));
    let filter = ChainFilter { max_depth: None, action_types: None };
    let acts = get_agent_activity(&c, top, &filter).expect("top is on the chain");
    assert_eq!(acts.len(), 6);
    for (k, a) in acts.iter().enumerate() {
        assert_eq!(a.seq, 5 - k as u64);
    }
}

#[test]
fn depth_beyond_genesis_stops_at_genesis() {
    let c = chain_of(3);
    let top = action_hash(c.head().expect("chain has a head"));
    let filter = ChainFilter { max_depth: Some(50), action_types: None };
    let acts = get_agent_activity(&c, top, &filter).expect("top is on the chain");
    assert_eq!(acts.len(), 3);
}

#[test]
fn walk_may_start_below_the_head() {
    let c = chain_of(5);
    let mid = action_hash(&c.actions[2]);
    let filter = ChainFilter { max_depth: Some(1), action_types: None };
    let acts = get_agent_activity(&c, mid, &filter).expect("action is on the chain");
    assert_eq!(acts.len(), 2);
    assert_eq!(acts[0].seq, 2);
    assert_eq!(acts[1].seq, 1);
}

#[test]
fn excluded_types_are_skipped_not_stops() {
    let mut c = HashChain::new(agent(1));
    c.append(ActionPayload::EntryCreate { entry: entry_ref(1) }, 1);
    let lc = c.create_link(entry_ref(1), entry_ref(2), LinkType { id: 0 }, vec![], 2);
    c.append(ActionPayload::EntryCreate { entry: entry_ref(3) }, 3);
    c.delete_link(action_hash(&lc), 4).expect("link is live");
    c.append(ActionPayload::EntryCreate { entry: entry_ref(4) }, 5);
    let top = action_hash(c.head().expect("chain has a head"));
    let filter = ChainFilter {
        max_depth: None,
        action_types: Some(vec![ActionType::EntryCreate]),
    };
    let acts = get_agent_activity(&c, top, &filter).expect("top is on the chain");
    assert_eq!(acts.len(), 3);
    assert_eq!(acts[0].seq, 4);
    assert_eq!(acts[1].seq, 2);
    assert_eq!(acts[2].seq, 0);
    for a in &acts {
        assert!(matches!(a.payload, ActionPayload::EntryCreate { .. }));
    }
}

#[test]
fn unknown_top_is_a_broken_link() {
    let c = chain_of(3);
    let absent = ContentHash { kind: HashKind::Action, d0: 77, d1: 0, d2: 0, d3: 0 };
    let filter = ChainFilter { max_depth: None, action_types: None };
    assert!(matches!(
        get_agent_activity(&c, absent, &filter),
        Err(ChainWalkError::BrokenLink)
    ));
}
