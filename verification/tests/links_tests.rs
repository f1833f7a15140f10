use agent_chain::chain::{ActionPayload, HashChain, LinkType, action_hash};
use agent_chain::hash::{ContentHash, HashKind};
use agent_chain::links::LinkError;

fn agent(n: u64) -> ContentHash {
    ContentHash { kind: HashKind::AgentKey, d0: n, d1: 0, d2: 0, d3: 0 }
}

fn entry_ref(n: u64) -> ContentHash {
    ContentHash { kind: HashKind::Entry, d0: n, d1: 1, d2: 2, d3: 3 }
}

#[test]
fn created_link_is_immediately_visible() {
    let mut c = HashChain::new(agent(1));
    let base = entry_ref(10);
    let target = entry_ref(20);
    let t = LinkType { id: 3 };
    let a = c.create_link(base, target, t, vec![7, 8, 9], 55);
    let links = c.get_links(base, t, None);
    assert_eq!(links.len(), 1);
    assert_eq!(links[0].base, base);
    assert_eq!(links[0].target, target);
    assert_eq!(links[0].link_type, t);
    assert_eq!(links[0].tag, vec![7, 8, 9]);
    assert_eq!(links[0].create_hash, action_hash(&a));
    assert_eq!(links[0].created_at, 55);
    assert!(!links[0].tombstoned);
}

#[test]
fn genesis_entry_then_link_then_delete() {
    // Genesis, then an entry creation, then a self-link under tag "x";
    // the link is visible until its creating action is tombstoned.
    let b = agent(9);
    let mut c = HashChain::new(b);
    let a0 = c.append(ActionPayload::EntryCreate { entry: entry_ref(0) }, 0);
    assert_eq!(a0.seq, 0);
    let a1 = c.append(ActionPayload::EntryCreate { entry: entry_ref(1) }, 1);
    assert_eq!(a1.seq, 1);
    let t = LinkType { id: 0 };
    let a2 = c.create_link(b, b, t, vec![b'x'], 2);
    assert_eq!(a2.seq, 2);

    let links = c.get_links(b, t, None);
    assert_eq!(links.len(), 1);
    assert_eq!(links[0].base, b);
    assert_eq!(links[0].target, b);
    assert_eq!(links[0].tag, vec![b'x']);
    assert_eq!(links[0].create_hash, action_hash(&a2));
    assert!(!links[0].tombstoned);

    let a3 = c.delete_link(action_hash(&a2), 3).expect("link is live");
    assert_eq!(a3.seq, 3);
    let after = c.get_links(b, t, None);
    assert_eq!(after.len(), 0);
    assert!(c.verify_integrity().is_ok());
}

#[test]
fn delete_link_rejects_unknown_and_double_deletes() {
    let mut c = HashChain::new(agent(1));
    let t = LinkType { id: 1 };
    let absent = ContentHash { kind: HashKind::Action, d0: 5, d1: 5, d2: 5, d3: 5 };
    assert!(matches!(c.delete_link(absent, 1), Err(LinkError::NotFound)));

    let a = c.create_link(entry_ref(1), entry_ref(2), t, vec![], 2);
    // An entry-creating action's hash does not name a link.
    let e = c.append(ActionPayload::EntryCreate { entry: entry_ref(3) }, 3);
    assert!(matches!(c.delete_link(action_hash(&e), 4), Err(LinkError::NotFound)));

    assert!(c.delete_link(action_hash(&a), 5).is_ok());
    assert!(matches!(c.delete_link(action_hash(&a), 6), Err(LinkError::NotFound)));
}

#[test]
fn get_links_filters_by_base_type_and_prefix() {
    let mut c = HashChain::new(agent(1));
    let b1 = entry_ref(1);
    let b2 = entry_ref(2);
    let ta = LinkType { id: 10 };
    let tb = LinkType { id: 11 };
    c.create_link(b1, entry_ref(3), ta, vec![b'a', b'b'], 1);
    c.create_link(b1, entry_ref(4), ta, vec![b'a', b'x'], 2);
    c.create_link(b1, entry_ref(5), ta, vec![b'b'], 3);
    c.create_link(b1, entry_ref(6), tb, vec![b'a'], 4);
    c.create_link(b2, entry_ref(7), ta, vec![b'a'], 5);

    assert_eq!(c.get_links(b1, ta, None).len(), 3);
    let prefix = vec![b'a'];
    let under_a = c.get_links(b1, ta, Some(&prefix));
    assert_eq!(under_a.len(), 2);
    assert_eq!(under_a[0].tag, vec![b'a', b'b']);
    assert_eq!(under_a[1].tag, vec![b'a', b'x']);
    let exact = vec![b'a', b'x'];
    assert_eq!(c.get_links(b1, ta, Some(&exact)).len(), 1);
    let longer = vec![b'a', b'x', b'y'];
    assert_eq!(c.get_links(b1, ta, Some(&longer)).len(), 0);
    assert_eq!(c.get_links(b1, tb, None).len(), 1);
    assert_eq!(c.get_links(b2, ta, None).len(), 1);
    assert_eq!(c.get_links(entry_ref(99), ta, None).len(), 0);
}

#[test]
fn empty_prefix_matches_every_tag() {
    let mut c = HashChain::new(agent(1));
    let b = entry_ref(1);
    let t = LinkType { id: 0 };
    c.create_link(b, entry_ref(2), t, vec![], 1);
    c.create_link(b, entry_ref(3), t, vec![b'q'], 2);
    let empty: Vec<u8> = vec![];
    assert_eq!(c.get_links(b, t, Some(&empty)).len(), 2);
}

#[test]
fn recreating_a_deleted_link_makes_it_visible_again() {
    let mut c = HashChain::new(agent(1));
    let b = entry_ref(1);
    let t = LinkType { id: 0 };
    let a0 = c.create_link(b, entry_ref(2), t, vec![b'x'], 1);
    c.delete_link(action_hash(&a0), 2).expect("link is live");
    assert_eq!(c.get_links(b, t, None).len(), 0);
    let a2 = c.create_link(b, entry_ref(2), t, vec![b'x'], 3);
    let links = c.get_links(b, t, None);
    assert_eq!(links.len(), 1);
    // The new creating action, not the tombstoned one, backs the link.
    assert_eq!(links[0].create_hash, action_hash(&a2));
}

#[test]
fn get_links_keeps_creation_order() {
    let mut c = HashChain::new(agent(1));
    let b = entry_ref(1);
    let t = LinkType { id: 0 };
    for n in 0..4u8 {
        c.create_link(b, entry_ref(n as u64 + 2), t, vec![n], 10 + n as u64);
    }
    let links = c.get_links(b, t, None);
    assert_eq!(links.len(), 4);
    for (k, l) in links.iter().enumerate() {
        assert_eq!(l.tag, vec![k as u8]);
        assert!(k == 0 || links[k - 1].seq < l.seq);
    }
}

#[test]
fn create_and_get_link_returns_the_new_link() {
    let mut c = HashChain::new(agent(4));
    let b = agent(4);
    let t = LinkType { id: 0 };
    c.create_link(b, entry_ref(1), t, vec![b'o', b'l', b'd'], 1);
    let l = c.create_and_get_link(b, b, t, vec![b'n', b'e', b'w'], 2);
    assert_eq!(l.base, b);
    assert_eq!(l.target, b);
    assert_eq!(l.link_type, t);
    assert_eq!(l.tag, vec![b'n', b'e', b'w']);
    assert_eq!(l.seq, 1);
    assert_eq!(l.created_at, 2);
    assert!(!l.tombstoned);
    assert_eq!(l.create_hash, action_hash(&c.actions[1]));
}

#[test]
fn create_and_delete_link_round_trip() {
    let mut c = HashChain::new(agent(5));
    let b = agent(5);
    let t = LinkType { id: 0 };
    let dh = c.create_and_delete_link(b, b, t, vec![], 9);
    assert_eq!(c.actions.len(), 2);
    assert_eq!(dh, action_hash(&c.actions[1]));
    assert!(matches!(
        c.actions[1].payload,
        ActionPayload::LinkDelete { .. }
    ));
    assert_eq!(c.get_links(b, t, None).len(), 0);
    assert!(c.verify_integrity().is_ok());
}

#[test]
fn deleting_one_link_leaves_the_others() {
    let mut c = HashChain::new(agent(1));
    let b = entry_ref(1);
    let t = LinkType { id: 0 };
    let a0 = c.create_link(b, entry_ref(2), t, vec![0], 1);
    let a1 = c.create_link(b, entry_ref(3), t, vec![1], 2);
    c.delete_link(action_hash(&a0), 3).expect("first link is live");
    let links = c.get_links(b, t, None);
    assert_eq!(links.len(), 1);
    assert_eq!(links[0].create_hash, action_hash(&a1));
}
