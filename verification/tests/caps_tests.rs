use agent_chain::caps::{
    AccessMode, AuthOutcome, CapClaim, CapGrant, CapabilityStore, GrantedFunction, grant_hash,
    grant_on_chain,
};
use agent_chain::chain::{ActionPayload, HashChain};
use agent_chain::hash::{ContentHash, HashKind};

fn agent(n: u64) -> ContentHash {
    ContentHash { kind: HashKind::AgentKey, d0: n, d1: 0, d2: 0, d3: 0 }
}

fn func(zome: &str, function: &str) -> GrantedFunction {
    GrantedFunction { zome: zome.as_bytes().to_vec(), function: function.as_bytes().to_vec() }
}

fn grant(tag: &str, access: AccessMode, functions: Vec<GrantedFunction>) -> CapGrant {
    CapGrant { tag: tag.as_bytes().to_vec(), access, functions }
}

fn authorize_str(
    store: &CapabilityStore,
    caller: ContentHash,
    zome: &str,
    function: &str,
    claim: Option<&CapClaim>,
) -> AuthOutcome {
    store.authorize(caller, &zome.as_bytes().to_vec(), &function.as_bytes().to_vec(), claim)
}

#[test]
fn unrestricted_grant_authorizes_any_caller() {
    let mut store = CapabilityStore::new();
    store.grant(grant("open", AccessMode::Unrestricted, vec![func("zome", "fun")]));
    assert_eq!(authorize_str(&store, agent(1), "zome", "fun", None), AuthOutcome::Authorized);
    assert_eq!(authorize_str(&store, agent(2), "zome", "fun", None), AuthOutcome::Authorized);
    // A function the grant does not list stays gated.
    assert_eq!(authorize_str(&store, agent(1), "zome", "other", None), AuthOutcome::Denied);
    assert_eq!(authorize_str(&store, agent(1), "other", "fun", None), AuthOutcome::Denied);
}

#[test]
fn empty_store_denies() {
    let store = CapabilityStore::new();
    assert_eq!(authorize_str(&store, agent(1), "zome", "fun", None), AuthOutcome::Denied);
}

#[test]
fn assigned_grant_admits_only_listed_agents() {
    let mut store = CapabilityStore::new();
    store.grant(grant(
        "team",
        AccessMode::Assigned { agents: vec![agent(1), agent(2)] },
        vec![func("zome", "fun")],
    ));
    assert_eq!(authorize_str(&store, agent(1), "zome", "fun", None), AuthOutcome::Authorized);
    assert_eq!(authorize_str(&store, agent(2), "zome", "fun", None), AuthOutcome::Authorized);
    assert_eq!(authorize_str(&store, agent(3), "zome", "fun", None), AuthOutcome::Denied);
}

#[test]
fn transferable_grant_needs_the_matching_secret() {
    let mut store = CapabilityStore::new();
    store.grant(grant(
        "bearer",
        AccessMode::Transferable { secret: vec![9, 9, 9] },
        vec![func("zome", "fun")],
    ));
    let good = CapClaim { tag: b"bearer".to_vec(), secret: vec![9, 9, 9] };
    let bad = CapClaim { tag: b"bearer".to_vec(), secret: vec![1, 2, 3] };
    assert_eq!(
        authorize_str(&store, agent(5), "zome", "fun", Some(&good)),
        AuthOutcome::Authorized
    );
    assert_eq!(authorize_str(&store, agent(5), "zome", "fun", Some(&bad)), AuthOutcome::Denied);
    assert_eq!(authorize_str(&store, agent(5), "zome", "fun", None), AuthOutcome::Denied);
}

#[test]
fn later_grant_with_same_tag_supersedes() {
    let mut store = CapabilityStore::new();
    store.grant(grant("open", AccessMode::Unrestricted, vec![func("zome", "fun")]));
    assert_eq!(authorize_str(&store, agent(1), "zome", "fun", None), AuthOutcome::Authorized);
    // Revocation is chain-logical: a later grant with an empty function
    // set under the same tag wins.
    store.grant(grant("open", AccessMode::Unrestricted, vec![]));
    assert_eq!(authorize_str(&store, agent(1), "zome", "fun", None), AuthOutcome::Denied);
    // A grant under another tag is untouched.
    store.grant(grant("other", AccessMode::Unrestricted, vec![func("zome", "fun")]));
    assert_eq!(authorize_str(&store, agent(1), "zome", "fun", None), AuthOutcome::Authorized);
}

#[test]
fn one_grant_may_list_several_functions() {
    let mut store = CapabilityStore::new();
    store.grant(grant(
        "wide",
        AccessMode::Unrestricted,
        vec![func("zome", "foo"), func("zome", "bar")],
    ));
    assert_eq!(authorize_str(&store, agent(1), "zome", "foo", None), AuthOutcome::Authorized);
    assert_eq!(authorize_str(&store, agent(1), "zome", "bar", None), AuthOutcome::Authorized);
    assert_eq!(authorize_str(&store, agent(1), "zome", "baz", None), AuthOutcome::Denied);
}

#[test]
fn grant_hash_is_deterministic_and_content_sensitive() {
    let g1 = grant("open", AccessMode::Unrestricted, vec![func("zome", "fun")]);
    let g2 = grant("open", AccessMode::Unrestricted, vec![func("zome", "fun")]);
    assert_eq!(grant_hash(&g1), grant_hash(&g2));
    assert_eq!(grant_hash(&g1).kind, HashKind::Entry);
    let g3 = grant("open", AccessMode::Unrestricted, vec![func("zome", "gun")]);
    assert_ne!(grant_hash(&g1), grant_hash(&g3));
}

#[test]
fn grant_on_chain_commits_an_entry_action() {
    let mut store = CapabilityStore::new();
    let mut chain = HashChain::new(agent(1));
    let g = grant("open", AccessMode::Unrestricted, vec![func("zome", "fun")]);
    let expected = grant_hash(&g);
    let (h, a) = grant_on_chain(&mut store, &mut chain, g, 77);
    assert_eq!(h, expected);
    assert_eq!(a.seq, 0);
    assert_eq!(a.timestamp, 77);
    match &a.payload {
        ActionPayload::EntryCreate { entry } => assert_eq!(*entry, expected),
        _ => panic!("a grant commits as an entry creation"),
    }
    assert_eq!(store.grants.len(), 1);
    assert_eq!(chain.actions.len(), 1);
    assert!(chain.verify_integrity().is_ok());
}
