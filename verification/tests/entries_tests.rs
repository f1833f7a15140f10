use agent_chain::chain::{ActionPayload, HashChain};
use agent_chain::entries::{Entry, EntryStore, create_entry, entry_hash};
use agent_chain::hash::{ContentHash, HashKind};

fn agent(n: u64) -> ContentHash {
    ContentHash { kind: HashKind::AgentKey, d0: n, d1: 0, d2: 0, d3: 0 }
}

fn test_entry(s: &str) -> Entry {
    Entry { entry_type: b"test".to_vec(), content: s.as_bytes().to_vec() }
}

#[test]
fn put_then_get_by_content_hash() {
    let mut store = EntryStore::new();
    let h = store.put(test_entry("bar"));
    assert_eq!(h.kind, HashKind::Entry);
    let got = store.get(h).expect("entry is stored");
    assert_eq!(got.entry_type, b"test".to_vec());
    assert_eq!(got.content, b"bar".to_vec());
}

#[test]
fn get_missing_is_none() {
    let mut store = EntryStore::new();
    store.put(test_entry("bar"));
    let absent = ContentHash { kind: HashKind::Entry, d0: 1, d1: 2, d2: 3, d3: 4 };
    assert!(store.get(absent).is_none());
}

#[test]
fn entry_hash_is_deterministic_and_separates_type_from_content() {
    let a = entry_hash(&test_entry("bar"));
    let b = entry_hash(&test_entry("bar"));
    assert_eq!(a, b);
    let c = entry_hash(&test_entry("baz"));
    assert_ne!(a, c);
    // Moving a byte across the type/content boundary changes the hash.
    let split1 = Entry { entry_type: b"ab".to_vec(), content: b"c".to_vec() };
    let split2 = Entry { entry_type: b"a".to_vec(), content: b"bc".to_vec() };
    assert_ne!(entry_hash(&split1), entry_hash(&split2));
}

#[test]
fn create_entry_stores_and_records_on_chain() {
    let mut store = EntryStore::new();
    let mut chain = HashChain::new(agent(1));
    let e = test_entry("bar");
    let expected = entry_hash(&e);
    let (h, a) = create_entry(&mut store, &mut chain, e, 42);
    assert_eq!(h, expected);
    assert_eq!(a.seq, 0);
    assert_eq!(a.timestamp, 42);
    match &a.payload {
        ActionPayload::EntryCreate { entry } => assert_eq!(*entry, expected),
        _ => panic!("an entry commits as an entry creation"),
    }
    assert!(store.get(h).is_some());
    assert!(chain.verify_integrity().is_ok());
}
