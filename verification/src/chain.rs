//! The append-only hash chain: an ordered log of actions for one agent,
//! each action naming its predecessor by content hash, with strictly
//! increasing, contiguous sequence numbers.

use vstd::prelude::*;
use crate::hash::{ContentHash, HashKind, mix, mix_exec, mix_hash, mix_hash_exec, fold_bytes, fold_bytes_exec};

verus! {

/// A named link type declared by the application.
#[derive(Clone, Copy, Debug, PartialEq, Eq, Structural)]
pub struct LinkType {
    pub id: u64,
}

/// The state change an action records.
#[derive(Clone, Debug)]
pub enum ActionPayload {
    /// A new entry, named by its content hash.
    EntryCreate { entry: ContentHash },
    /// A new typed, tagged edge from `base` to `target`.
    LinkCreate { base: ContentHash, target: ContentHash, link_type: LinkType, tag: Vec<u8> },
    /// A tombstone for the link whose creating action has this hash.
    LinkDelete { create_hash: ContentHash },
}

/// The kind of state change an action records, without its data.
#[derive(Clone, Copy, Debug, PartialEq, Eq, Structural)]
pub enum ActionType {
    EntryCreate,
    LinkCreate,
    LinkDelete,
}

/// One chain element: an immutable, ordered record of a single state change.
#[derive(Clone, Debug)]
pub struct Action {
    /// Position in the chain; strictly increasing and contiguous from 0.
    pub seq: u64,
    /// Content hash of the previous action; `None` only at genesis.
    pub prev: Option<ContentHash>,
    /// The agent key of the chain's owner.
    pub author: ContentHash,
    /// When the action was committed, as the host reported it.
    pub timestamp: u64,
    pub payload: ActionPayload,
}

/// The mathematical value of an [`ActionPayload`].
#[verifier::ext_equal]
pub ghost enum PayloadView {
    EntryCreate { entry: ContentHash },
    LinkCreate { base: ContentHash, target: ContentHash, link_type: LinkType, tag: Seq<u8> },
    LinkDelete { create_hash: ContentHash },
}

/// The mathematical value of an [`Action`].
#[verifier::ext_equal]
pub ghost struct ActionView {
    pub seq: u64,
    pub prev: Option<ContentHash>,
    pub author: ContentHash,
    pub timestamp: u64,
    pub payload: PayloadView,
}

impl View for ActionPayload {
    type V = PayloadView;

    open spec fn view(&self) -> PayloadView {
        match self {
            ActionPayload::EntryCreate { entry } => PayloadView::EntryCreate { entry: *entry },
            ActionPayload::LinkCreate { base, target, link_type, tag } => PayloadView::LinkCreate {
                base: *base,
                target: *target,
                link_type: *link_type,
                tag: tag@,
            },
            ActionPayload::LinkDelete { create_hash } => PayloadView::LinkDelete {
                create_hash: *create_hash,
            },
        }
    }
}

impl View for Action {
    type V = ActionView;

    open spec fn view(&self) -> ActionView {
        ActionView {
            seq: self.seq,
            prev: self.prev,
            author: self.author,
            timestamp: self.timestamp,
            payload: self.payload@,
        }
    }
}

/// The kind of state change a payload records.
pub open spec fn action_type_of(p: PayloadView) -> ActionType {
    match p {
        PayloadView::EntryCreate { .. } => ActionType::EntryCreate,
        PayloadView::LinkCreate { .. } => ActionType::LinkCreate,
        PayloadView::LinkDelete { .. } => ActionType::LinkDelete,
    }
}

/// Executable counterpart of [`action_type_of`].
pub fn action_type_exec(p: &ActionPayload) -> (t: ActionType)
    ensures
        t == action_type_of(p@),
{
    match p {
        ActionPayload::EntryCreate { .. } => ActionType::EntryCreate,
        ActionPayload::LinkCreate { .. } => ActionType::LinkCreate,
        ActionPayload::LinkDelete { .. } => ActionType::LinkDelete,
    }
}

/// Whether an action records the creation of a link.
pub open spec fn is_link_create(a: ActionView) -> bool {
    a.payload is LinkCreate
}

/// The digest lane that mixes in the predecessor hash, or marks genesis.
pub open spec fn prev_lane(prev: Option<ContentHash>) -> u64 {
    match prev {
        None => mix(0x452821e638d01377u64, 0),
        Some(h) => mix_hash(mix(0x452821e638d01377u64, 1), h),
    }
}

/// The digest lane that mixes in the payload, separating the variants.
pub open spec fn payload_lane(p: PayloadView) -> u64 {
    match p {
        PayloadView::EntryCreate { entry } => mix_hash(mix(0xbe5466cf34e90c6cu64, 1), entry),
        PayloadView::LinkCreate { base, target, link_type, tag } => fold_bytes(
            mix(mix_hash(mix_hash(mix(0xbe5466cf34e90c6cu64, 2), base), target), link_type.id),
            tag,
        ),
        PayloadView::LinkDelete { create_hash } => mix_hash(
            mix(0xbe5466cf34e90c6cu64, 3),
            create_hash,
        ),
    }
}

/// The content hash of an action: a pure function of every field. Lane 0
/// folds in the sequence number alone, so actions at different chain
/// positions provably hash differently.
pub open spec fn spec_action_hash(a: ActionView) -> ContentHash {
    ContentHash {
        kind: HashKind::Action,
        d0: 0x9e3779b97f4a7c15u64 ^ a.seq,
        d1: mix_hash(prev_lane(a.prev), a.author),
        d2: payload_lane(a.payload),
        d3: mix(0xc0ac29b7c97c50ddu64, a.timestamp),
    }
}

/// Computes the content hash of an action.
pub fn action_hash(a: &Action) -> (h: ContentHash)
    ensures
        h == spec_action_hash(a@),
{
    let p: u64 = match a.prev {
        None => mix_exec(0x452821e638d01377u64, 0),
        Some(h) => mix_hash_exec(mix_exec(0x452821e638d01377u64, 1), &h),
    };
    let pl: u64 = match &a.payload {
        ActionPayload::EntryCreate { entry } => mix_hash_exec(
            mix_exec(0xbe5466cf34e90c6cu64, 1),
            entry,
        ),
        ActionPayload::LinkCreate { base, target, link_type, tag } => fold_bytes_exec(
            mix_exec(
                mix_hash_exec(mix_hash_exec(mix_exec(0xbe5466cf34e90c6cu64, 2), base), target),
                link_type.id,
            ),
            tag.as_slice(),
        ),
        ActionPayload::LinkDelete { create_hash } => mix_hash_exec(
            mix_exec(0xbe5466cf34e90c6cu64, 3),
            create_hash,
        ),
    };
    ContentHash {
        kind: HashKind::Action,
        d0: 0x9e3779b97f4a7c15u64 ^ a.seq,
        d1: mix_hash_exec(p, &a.author),
        d2: pl,
        d3: mix_exec(0xc0ac29b7c97c50ddu64, a.timestamp),
    }
}

/// Law: actions with different sequence numbers have different content
/// hashes, whatever their other fields hold.
pub proof fn lemma_action_hash_injective_seq(a: ActionView, b: ActionView)
    requires
        a.seq != b.seq,
    ensures
        spec_action_hash(a) != spec_action_hash(b),
{
    let x = a.seq;
    let y = b.seq;
    assert(x != y ==> 0x9e3779b97f4a7c15u64 ^ x != 0x9e3779b97f4a7c15u64 ^ y) by (bit_vector);
}

/// An append attempt computed against a stale head: another append for the
/// same agent would have produced the same sequence number.
#[derive(Clone, Copy, Debug, PartialEq, Eq, Structural)]
pub enum ChainError {
    OutOfOrder,
}

/// The append-only guarantee was broken: some stored action no longer
/// matches what the chain's invariants and recomputed hashes say it must
/// be. Fatal — surfaced, never retried, never silently repaired.
#[derive(Clone, Copy, Debug, PartialEq, Eq, Structural)]
pub enum ChainFault {
    ChainCorruption,
}

/// The mathematical value of a [`HashChain`].
#[verifier::ext_equal]
pub ghost struct ChainView {
    pub author: ContentHash,
    pub actions: Seq<ActionView>,
}

/// An agent's append-only local log of actions, kept as an arena ordered
/// by sequence number.
pub struct HashChain {
    pub author: ContentHash,
    pub actions: Vec<Action>,
}

impl View for HashChain {
    type V = ChainView;

    open spec fn view(&self) -> ChainView {
        ChainView { author: self.author, actions: self.actions@.map_values(|a: Action| a@) }
    }
}

/// Whether the action at position `i` keeps the chain's invariants: its
/// sequence number is its position, its author is the chain's owner, its
/// predecessor pointer names the hash of the action before it (and only
/// genesis has none), and a tombstone always refers back to an earlier
/// link-creating action.
pub open spec fn action_wf_at(c: ChainView, i: int) -> bool {
    let a = c.actions[i];
    &&& a.seq as int == i
    &&& a.author == c.author
    &&& a.prev == (if i == 0 {
        Option::<ContentHash>::None
    } else {
        Some(spec_action_hash(c.actions[i - 1]))
    })
    &&& delete_refers_back(c.actions, i)
}

/// Whether a tombstone at position `i` references the hash of an earlier
/// link-creating action of the same chain.
pub open spec fn delete_refers_back(actions: Seq<ActionView>, i: int) -> bool {
    match actions[i].payload {
        PayloadView::LinkDelete { create_hash } => exists|j: int|
            0 <= j < i && is_link_create(#[trigger] actions[j]) && spec_action_hash(actions[j])
                == create_hash,
        _ => true,
    }
}

/// Well-formedness of a whole chain: the owner is an agent key and every
/// position keeps [`action_wf_at`].
pub open spec fn chain_wf(c: ChainView) -> bool {
    &&& c.author.kind == HashKind::AgentKey
    &&& forall|i: int| 0 <= i < c.actions.len() ==> #[trigger] action_wf_at(c, i)
}

/// The hash of the most recent action, or `None` for an empty chain.
pub open spec fn spec_head_hash(c: ChainView) -> Option<ContentHash> {
    if c.actions.len() == 0 {
        None
    } else {
        Some(spec_action_hash(c.actions.last()))
    }
}

/// The action an append to `c` constructs: the next sequence number, the
/// current head as predecessor, the chain's author.
pub open spec fn spec_next_action(c: ChainView, p: PayloadView, ts: u64) -> ActionView {
    ActionView {
        seq: c.actions.len() as u64,
        prev: spec_head_hash(c),
        author: c.author,
        timestamp: ts,
        payload: p,
    }
}

/// The chain after appending a payload.
pub open spec fn chain_push(c: ChainView, p: PayloadView, ts: u64) -> ChainView {
    ChainView { author: c.author, actions: c.actions.push(spec_next_action(c, p, ts)) }
}

/// Whether a payload may be appended to `c`: a tombstone must reference
/// the hash of a link-creating action already on the chain; every other
/// payload is free.
pub open spec fn payload_permitted(c: ChainView, p: PayloadView) -> bool {
    match p {
        PayloadView::LinkDelete { create_hash } => exists|j: int|
            0 <= j < c.actions.len() && is_link_create(#[trigger] c.actions[j])
                && spec_action_hash(c.actions[j]) == create_hash,
        _ => true,
    }
}

/// Law: chain hashes are distinct position by position — no two actions
/// of a well-formed chain share a content hash.
pub proof fn lemma_chain_hashes_distinct(c: ChainView, i: int, j: int)
    requires
        chain_wf(c),
        0 <= i < c.actions.len(),
        0 <= j < c.actions.len(),
        i != j,
    ensures
        spec_action_hash(c.actions[i]) != spec_action_hash(c.actions[j]),
{
    assert(action_wf_at(c, i));
    assert(action_wf_at(c, j));
    lemma_action_hash_injective_seq(c.actions[i], c.actions[j]);
}

/// Law: in a well-formed chain, each action's predecessor pointer is the
/// hash of the action one position back, and sequence numbers descend by
/// exactly one along it.
pub proof fn lemma_prev_links_to_predecessor(c: ChainView, i: int)
    requires
        chain_wf(c),
        1 <= i < c.actions.len(),
    ensures
        c.actions[i].prev == Some(spec_action_hash(c.actions[i - 1])),
        c.actions[i].seq == c.actions[i - 1].seq + 1,
{
    assert(action_wf_at(c, i));
    assert(action_wf_at(c, i - 1));
}

/// Appending a permitted payload preserves well-formedness.
pub proof fn lemma_wf_push(c: ChainView, p: PayloadView, ts: u64)
    requires
        chain_wf(c),
        payload_permitted(c, p),
        c.actions.len() < u64::MAX,
    ensures
        chain_wf(chain_push(c, p, ts)),
{
    let c2 = chain_push(c, p, ts);
    let n = c.actions.len() as int;
    assert forall|i: int| 0 <= i < c2.actions.len() implies #[trigger] action_wf_at(c2, i) by {
        if i < n {
            assert(action_wf_at(c, i));
            assert(c2.actions[i] == c.actions[i]);
            if i > 0 {
                assert(c2.actions[i - 1] == c.actions[i - 1]);
            }
            match c.actions[i].payload {
                PayloadView::LinkDelete { create_hash } => {
                    let j = choose|j: int|
                        0 <= j < i && is_link_create(#[trigger] c.actions[j]) && spec_action_hash(
                            c.actions[j],
                        ) == create_hash;
                    assert(c2.actions[j] == c.actions[j]);
                    assert(delete_refers_back(c2.actions, i));
                },
                _ => {},
            }
        } else {
            assert(c2.actions[i] == spec_next_action(c, p, ts));
            if n > 0 {
                assert(c2.actions[n - 1] == c.actions[n - 1]);
            }
            match p {
                PayloadView::LinkDelete { create_hash } => {
                    let j = choose|j: int|
                        0 <= j < n && is_link_create(#[trigger] c.actions[j]) && spec_action_hash(
                            c.actions[j],
                        ) == create_hash;
                    assert(c2.actions[j] == c.actions[j]);
                    assert(delete_refers_back(c2.actions, i));
                },
                _ => {},
            }
        }
    }
}

/// Copies a byte string.
pub fn copy_bytes(v: &Vec<u8>) -> (r: Vec<u8>)
    ensures
        r@ == v@,
{
    let mut out: Vec<u8> = Vec::new();
    let mut i: usize = 0;
    while i < v.len()
        invariant
            0 <= i <= v@.len(),
            out@ == v@.take(i as int),
        decreases v@.len() - i,
    {
        out.push(v[i]);
        proof {
            assert(v@.take(i + 1) =~= v@.take(i as int).push(v@[i as int]));
        }
        i = i + 1;
    }
    proof {
        assert(v@.take(v@.len() as int) =~= v@);
    }
    out
}

/// Copies a payload.
pub fn dup_payload(p: &ActionPayload) -> (r: ActionPayload)
    ensures
        r@ == p@,
{
    match p {
        ActionPayload::EntryCreate { entry } => ActionPayload::EntryCreate { entry: *entry },
        ActionPayload::LinkCreate { base, target, link_type, tag } => ActionPayload::LinkCreate {
            base: *base,
            target: *target,
            link_type: *link_type,
            tag: copy_bytes(tag),
        },
        ActionPayload::LinkDelete { create_hash } => ActionPayload::LinkDelete {
            create_hash: *create_hash,
        },
    }
}

/// Copies an action.
pub fn dup_action(a: &Action) -> (r: Action)
    ensures
        r@ == a@,
{
    Action {
        seq: a.seq,
        prev: a.prev,
        author: a.author,
        timestamp: a.timestamp,
        payload: dup_payload(&a.payload),
    }
}

impl HashChain {
    /// Starts an empty chain owned by the given agent key.
    pub fn new(author: ContentHash) -> (c: HashChain)
        requires
            author.kind == HashKind::AgentKey,
        ensures
            c@.author == author,
            c@.actions == Seq::<ActionView>::empty(),
            chain_wf(c@),
    {
        let c = HashChain { author, actions: Vec::new() };
        proof {
            assert(c@.actions =~= Seq::<ActionView>::empty());
        }
        c
    }

    /// Appends a permitted payload: the new action takes the next sequence
    /// number and names the current head as its predecessor. The log is
    /// extended by exactly that action and stays well-formed.
    pub fn append(&mut self, payload: ActionPayload, timestamp: u64) -> (a: Action)
        requires
            chain_wf(old(self)@),
            payload_permitted(old(self)@, payload@),
            old(self)@.actions.len() < u64::MAX,
        ensures
            a@ == spec_next_action(old(self)@, payload@, timestamp),
            final(self)@ == chain_push(old(self)@, payload@, timestamp),
            chain_wf(final(self)@),
    {
        let ghost c0 = self@;
        let prev: Option<ContentHash> = if self.actions.len() == 0 {
            None
        } else {
            Some(action_hash(&self.actions[self.actions.len() - 1]))
        };
        let act = Action {
            seq: self.actions.len() as u64,
            prev,
            author: self.author,
            timestamp,
            payload,
        };
        let ret = dup_action(&act);
        proof {
            assert(c0.actions.len() > 0 ==> c0.actions.last() == self.actions@.map_values(
                |x: Action| x@,
            ).last());
            assert(act@ == spec_next_action(c0, act.payload@, timestamp));
        }
        self.actions.push(act);
        proof {
            assert(self@.actions =~= c0.actions.push(ret@));
            assert(self@ =~= chain_push(c0, ret@.payload, timestamp));
            lemma_wf_push(c0, ret@.payload, timestamp);
        }
        ret
    }

    /// Appends only if the caller's expected sequence number is still the
    /// next one; otherwise the chain is unchanged and the append fails as
    /// out of order, the recoverable race outcome of two appends computing
    /// the same sequence number.
    pub fn append_expecting(
        &mut self,
        expected_seq: u64,
        payload: ActionPayload,
        timestamp: u64,
    ) -> (r: Result<Action, ChainError>)
        requires
            chain_wf(old(self)@),
            payload_permitted(old(self)@, payload@),
            old(self)@.actions.len() < u64::MAX,
        ensures
            match r {
                Ok(a) => expected_seq as int == old(self)@.actions.len() && a@ == spec_next_action(
                    old(self)@,
                    payload@,
                    timestamp,
                ) && final(self)@ == chain_push(old(self)@, payload@, timestamp) && chain_wf(
                    final(self)@,
                ),
                Err(e) => e == ChainError::OutOfOrder && expected_seq as int != old(
                    self,
                )@.actions.len() && final(self)@ == old(self)@,
            },
    {
        if expected_seq == self.actions.len() as u64 {
            Ok(self.append(payload, timestamp))
        } else {
            Err(ChainError::OutOfOrder)
        }
    }

    /// The most recent action, or `None` for an empty chain.
    pub fn head(&self) -> (r: Option<&Action>)
        ensures
            match r {
                None => self@.actions.len() == 0,
                Some(a) => self@.actions.len() > 0 && a@ == self@.actions.last(),
            },
    {
        if self.actions.len() == 0 {
            None
        } else {
            Some(&self.actions[self.actions.len() - 1])
        }
    }

    /// The position of the action with the given content hash, if any.
    pub fn find_index(&self, h: ContentHash) -> (r: Option<usize>)
        ensures
            match r {
                Some(i) => i < self@.actions.len() && spec_action_hash(self@.actions[i as int])
                    == h,
                None => forall|j: int|
                    0 <= j < self@.actions.len() ==> spec_action_hash(#[trigger] self@.actions[j])
                        != h,
            },
    {
        let mut i: usize = 0;
        while i < self.actions.len()
            invariant
                0 <= i <= self@.actions.len(),
                self@.actions.len() == self.actions@.len(),
                forall|j: int|
                    0 <= j < i ==> spec_action_hash(#[trigger] self@.actions[j]) != h,
            decreases self@.actions.len() - i,
        {
            let ah = action_hash(&self.actions[i]);
            if ah == h {
                return Some(i);
            }
            i = i + 1;
        }
        None
    }

    /// Whether an earlier position than `end` holds a link-creating action
    /// whose content hash is `h`.
    fn has_create_before(&self, h: ContentHash, end: usize) -> (r: bool)
        requires
            end <= self@.actions.len(),
        ensures
            r == exists|j: int|
                0 <= j < end && is_link_create(#[trigger] self@.actions[j]) && spec_action_hash(
                    self@.actions[j],
                ) == h,
    {
        let mut j: usize = 0;
        while j < end
            invariant
                0 <= j <= end <= self@.actions.len(),
                self@.actions.len() == self.actions@.len(),
                forall|k: int|
                    0 <= k < j ==> !(is_link_create(#[trigger] self@.actions[k])
                        && spec_action_hash(self@.actions[k]) == h),
            decreases end - j,
        {
            let is_lc = match &self.actions[j].payload {
                ActionPayload::LinkCreate { .. } => true,
                _ => false,
            };
            if is_lc {
                let ah = action_hash(&self.actions[j]);
                if ah == h {
                    proof {
                        assert(is_link_create(self@.actions[j as int]));
                    }
                    return true;
                }
            }
            j = j + 1;
        }
        false
    }

    /// The re-hash-and-compare integrity pass: walks the whole log and
    /// confirms every chain invariant — positions, authorship, each
    /// predecessor pointer against the recomputed hash of its target, and
    /// every tombstone's back reference. Any mismatch is a
    /// [`ChainFault::ChainCorruption`].
    pub fn verify_integrity(&self) -> (r: Result<(), ChainFault>)
        ensures
            r is Ok <==> chain_wf(self@),
            r is Err ==> r == Err::<(), ChainFault>(ChainFault::ChainCorruption),
    {
        let author_ok = match self.author.kind {
            HashKind::AgentKey => true,
            _ => false,
        };
        if !author_ok {
            return Err(ChainFault::ChainCorruption);
        }
        let mut i: usize = 0;
        while i < self.actions.len()
            invariant
                self.author.kind == HashKind::AgentKey,
                0 <= i <= self@.actions.len(),
                self@.actions.len() == self.actions@.len(),
                forall|k: int| 0 <= k < i ==> #[trigger] action_wf_at(self@, k),
            decreases self@.actions.len() - i,
        {
            let a = &self.actions[i];
            if a.seq != i as u64 {
                proof {
                    assert(!action_wf_at(self@, i as int));
                }
                return Err(ChainFault::ChainCorruption);
            }
            if !(a.author == self.author) {
                proof {
                    assert(!action_wf_at(self@, i as int));
                }
                return Err(ChainFault::ChainCorruption);
            }
            let prev_ok: bool = if i == 0 {
                match a.prev {
                    None => true,
                    Some(_) => false,
                }
            } else {
                match a.prev {
                    None => false,
                    Some(ph) => {
                        let expected = action_hash(&self.actions[i - 1]);
                        ph == expected
                    },
                }
            };
            if !prev_ok {
                proof {
                    assert(!action_wf_at(self@, i as int));
                }
                return Err(ChainFault::ChainCorruption);
            }
            let refers_ok: bool = match &self.actions[i].payload {
                ActionPayload::LinkDelete { create_hash } => {
                    self.has_create_before(*create_hash, i)
                },
                _ => true,
            };
            if !refers_ok {
                proof {
                    assert(!delete_refers_back(self@.actions, i as int));
                    assert(!action_wf_at(self@, i as int));
                }
                return Err(ChainFault::ChainCorruption);
            }
            proof {
                assert(delete_refers_back(self@.actions, i as int));
                assert(action_wf_at(self@, i as int));
            }
            i = i + 1;
        }
        Ok(())
    }

    /// Point lookup by content hash: the action with that hash, or `None`
    /// when no action of this chain has it — never a partial result.
    pub fn get(&self, h: ContentHash) -> (r: Option<&Action>)
        ensures
            match r {
                Some(a) => spec_action_hash(a@) == h && exists|i: int|
                    0 <= i < self@.actions.len() && #[trigger] self@.actions[i] == a@,
                None => forall|j: int|
                    0 <= j < self@.actions.len() ==> spec_action_hash(#[trigger] self@.actions[j])
                        != h,
            },
    {
        match self.find_index(h) {
            Some(i) => Some(&self.actions[i]),
            None => None,
        }
    }
}

} // verus!
