//! Entries: immutable, typed application payloads, stored content-addressed
//! and referenced — never embedded — by chain actions.

use vstd::prelude::*;
use crate::hash::{ContentHash, HashKind, mix, mix_exec, fold_bytes, fold_bytes_exec};
use crate::chain::{
    Action, ActionPayload, HashChain, PayloadView, chain_push, chain_wf, spec_next_action,
};

verus! {

/// An immutable application payload tagged with the name of an entry type
/// the application declared.
#[derive(Clone, Debug)]
pub struct Entry {
    pub entry_type: Vec<u8>,
    pub content: Vec<u8>,
}

/// The mathematical value of an [`Entry`].
#[verifier::ext_equal]
pub ghost struct EntryView {
    pub entry_type: Seq<u8>,
    pub content: Seq<u8>,
}

impl View for Entry {
    type V = EntryView;

    open spec fn view(&self) -> EntryView {
        EntryView { entry_type: self.entry_type@, content: self.content@ }
    }
}

/// The content hash of an entry: a pure function of its type name and its
/// content, the two separated by the type name's length.
pub open spec fn spec_entry_hash(e: EntryView) -> ContentHash {
    ContentHash {
        kind: HashKind::Entry,
        d0: fold_bytes(
            mix(fold_bytes(0x6a09e667f3bcc908u64, e.entry_type), e.entry_type.len() as u64),
            e.content,
        ),
        d1: fold_bytes(0x1f83d9abfb41bd6bu64, e.content),
        d2: fold_bytes(0x5be0cd19137e2179u64, e.entry_type),
        d3: mix(mix(0x9b05688c2b3e6c1fu64, e.entry_type.len() as u64), e.content.len() as u64),
    }
}

/// Computes the content hash of an entry.
pub fn entry_hash(e: &Entry) -> (h: ContentHash)
    ensures
        h == spec_entry_hash(e@),
{
    ContentHash {
        kind: HashKind::Entry,
        d0: fold_bytes_exec(
            mix_exec(
                fold_bytes_exec(0x6a09e667f3bcc908u64, e.entry_type.as_slice()),
                e.entry_type.len() as u64,
            ),
            e.content.as_slice(),
        ),
        d1: fold_bytes_exec(0x1f83d9abfb41bd6bu64, e.content.as_slice()),
        d2: fold_bytes_exec(0x5be0cd19137e2179u64, e.entry_type.as_slice()),
        d3: mix_exec(
            mix_exec(0x9b05688c2b3e6c1fu64, e.entry_type.len() as u64),
            e.content.len() as u64,
        ),
    }
}

/// Content-addressed storage for entries: once committed an entry is never
/// mutated or physically deleted.
pub struct EntryStore {
    pub entries: Vec<Entry>,
}

impl View for EntryStore {
    type V = Seq<EntryView>;

    open spec fn view(&self) -> Seq<EntryView> {
        self.entries@.map_values(|e: Entry| e@)
    }
}

impl EntryStore {
    /// An empty store.
    pub fn new() -> (s: EntryStore)
        ensures
            s@ == Seq::<EntryView>::empty(),
    {
        let s = EntryStore { entries: Vec::new() };
        proof {
            assert(s@ =~= Seq::<EntryView>::empty());
        }
        s
    }

    /// Stores an entry and returns its content hash.
    pub fn put(&mut self, e: Entry) -> (h: ContentHash)
        ensures
            final(self)@ == old(self)@.push(e@),
            h == spec_entry_hash(e@),
    {
        let ghost s0 = self@;
        let h = entry_hash(&e);
        let ghost ev = e@;
        self.entries.push(e);
        proof {
            assert(self@ =~= s0.push(ev));
        }
        h
    }

    /// Content-addressed read: an entry whose content hash is `h`, or
    /// `None` when the store holds none — never a partial result.
    pub fn get(&self, h: ContentHash) -> (r: Option<&Entry>)
        ensures
            match r {
                Some(e) => spec_entry_hash(e@) == h && exists|i: int|
                    0 <= i < self@.len() && #[trigger] self@[i] == e@,
                None => forall|i: int|
                    0 <= i < self@.len() ==> spec_entry_hash(#[trigger] self@[i]) != h,
            },
    {
        let mut i: usize = 0;
        while i < self.entries.len()
            invariant
                0 <= i <= self@.len(),
                self@.len() == self.entries@.len(),
                forall|j: int| 0 <= j < i ==> spec_entry_hash(#[trigger] self@[j]) != h,
            decreases self@.len() - i,
        {
            let eh = entry_hash(&self.entries[i]);
            if eh == h {
                proof {
                    assert(self@[i as int] == self.entries@[i as int]@);
                }
                return Some(&self.entries[i]);
            }
            i = i + 1;
        }
        None
    }
}

/// Commits an entry: stores it content-addressed and appends an
/// entry-creating action referencing it by hash; returns the entry's hash
/// and the new action.
pub fn create_entry(
    store: &mut EntryStore,
    chain: &mut HashChain,
    entry: Entry,
    timestamp: u64,
) -> (res: (ContentHash, Action))
    requires
        chain_wf(old(chain)@),
        old(chain)@.actions.len() < u64::MAX,
    ensures
        res.0 == spec_entry_hash(entry@),
        final(store)@ == old(store)@.push(entry@),
        res.1@ == spec_next_action(
            old(chain)@,
            PayloadView::EntryCreate { entry: spec_entry_hash(entry@) },
            timestamp,
        ),
        final(chain)@ == chain_push(
            old(chain)@,
            PayloadView::EntryCreate { entry: spec_entry_hash(entry@) },
            timestamp,
        ),
        chain_wf(final(chain)@),
{
    let h = store.put(entry);
    let a = chain.append(ActionPayload::EntryCreate { entry: h }, timestamp);
    (h, a)
}

} // verus!
