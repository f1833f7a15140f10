//! The link-graph index: typed, tagged edges between content-addressed
//! nodes, derived as a logical view over the chain's link actions. A link
//! is live until a later tombstone references its creating action.

use vstd::prelude::*;
use crate::hash::ContentHash;
use crate::chain::{
    Action, ActionPayload, ActionView, ChainView, HashChain, LinkType, PayloadView, action_hash,
    chain_push, chain_wf, copy_bytes, is_link_create, lemma_chain_hashes_distinct,
    lemma_action_hash_injective_seq, action_wf_at, spec_action_hash, spec_next_action,
};

verus! {

/// A typed, tagged directed edge between two content-addressed nodes,
/// as derived from a link-creating action.
#[derive(Clone, Debug)]
pub struct Link {
    pub base: ContentHash,
    pub target: ContentHash,
    pub link_type: LinkType,
    pub tag: Vec<u8>,
    /// Content hash of the action that created this link.
    pub create_hash: ContentHash,
    /// Timestamp of the creating action.
    pub created_at: u64,
    /// Sequence number of the creating action.
    pub seq: u64,
    /// Whether a later action tombstoned this link.
    pub tombstoned: bool,
}

/// The mathematical value of a [`Link`].
#[verifier::ext_equal]
pub ghost struct LinkView {
    pub base: ContentHash,
    pub target: ContentHash,
    pub link_type: LinkType,
    pub tag: Seq<u8>,
    pub create_hash: ContentHash,
    pub created_at: u64,
    pub seq: u64,
    pub tombstoned: bool,
}

impl View for Link {
    type V = LinkView;

    open spec fn view(&self) -> LinkView {
        LinkView {
            base: self.base,
            target: self.target,
            link_type: self.link_type,
            tag: self.tag@,
            create_hash: self.create_hash,
            created_at: self.created_at,
            seq: self.seq,
            tombstoned: self.tombstoned,
        }
    }
}

/// Deleting a link failed: no live link-creating action with the given
/// hash stands on this agent's own chain.
#[derive(Clone, Copy, Debug, PartialEq, Eq, Structural)]
pub enum LinkError {
    NotFound,
}

/// Whether `p` is a prefix of `t`.
pub open spec fn is_prefix(p: Seq<u8>, t: Seq<u8>) -> bool {
    p.len() <= t.len() && forall|i: int| 0 <= i < p.len() ==> t[i] == p[i]
}

/// Whether a tag passes a lookup's prefix filter: every tag passes an
/// absent filter.
pub open spec fn prefix_ok(prefix: Option<Seq<u8>>, tag: Seq<u8>) -> bool {
    match prefix {
        None => true,
        Some(p) => is_prefix(p, tag),
    }
}

/// Executable prefix test.
pub fn has_prefix(p: &Vec<u8>, t: &Vec<u8>) -> (r: bool)
    ensures
        r == is_prefix(p@, t@),
{
    if p.len() > t.len() {
        return false;
    }
    let mut i: usize = 0;
    while i < p.len()
        invariant
            0 <= i <= p@.len(),
            p@.len() <= t@.len(),
            forall|j: int| 0 <= j < i ==> t@[j] == p@[j],
        decreases p@.len() - i,
    {
        if t[i] != p[i] {
            return false;
        }
        i = i + 1;
    }
    true
}

/// Whether some action of the log tombstones the link whose creating
/// action has hash `h`.
pub open spec fn is_deleted(actions: Seq<ActionView>, h: ContentHash) -> bool {
    exists|j: int|
        0 <= j < actions.len() && ((#[trigger] actions[j]).payload matches
        PayloadView::LinkDelete { create_hash } && create_hash == h)
}

/// Whether a live link-creating action with hash `h` stands on the log.
pub open spec fn has_live_create(actions: Seq<ActionView>, h: ContentHash) -> bool {
    exists|i: int|
        0 <= i < actions.len() && is_link_create(#[trigger] actions[i]) && spec_action_hash(
            actions[i],
        ) == h && !is_deleted(actions, h)
}

/// Whether the action at position `i` is a link creation that a lookup
/// for (`base`, `lt`, `prefix`) returns: base and type match exactly, the
/// tag starts with the prefix, and no tombstone references it.
pub open spec fn link_included(
    actions: Seq<ActionView>,
    i: int,
    base: ContentHash,
    lt: LinkType,
    prefix: Option<Seq<u8>>,
) -> bool {
    actions[i].payload matches PayloadView::LinkCreate { base: b, target, link_type, tag }
        && b == base && link_type == lt && prefix_ok(prefix, tag) && !is_deleted(
        actions,
        spec_action_hash(actions[i]),
    )
}

/// The link derived from the link-creating action at position `i`.
pub open spec fn link_at(actions: Seq<ActionView>, i: int) -> LinkView {
    let a = actions[i];
    match a.payload {
        PayloadView::LinkCreate { base, target, link_type, tag } => LinkView {
            base,
            target,
            link_type,
            tag,
            create_hash: spec_action_hash(a),
            created_at: a.timestamp,
            seq: a.seq,
            tombstoned: is_deleted(actions, spec_action_hash(a)),
        },
        _ => LinkView {
            base: a.author,
            target: a.author,
            link_type: LinkType { id: 0 },
            tag: Seq::empty(),
            create_hash: spec_action_hash(a),
            created_at: a.timestamp,
            seq: a.seq,
            tombstoned: false,
        },
    }
}

/// The live links among the first `n` actions that a lookup for
/// (`base`, `lt`, `prefix`) returns, in creation order.
pub open spec fn links_up_to(
    actions: Seq<ActionView>,
    base: ContentHash,
    lt: LinkType,
    prefix: Option<Seq<u8>>,
    n: int,
) -> Seq<LinkView>
    decreases n,
{
    if n <= 0 {
        Seq::empty()
    } else {
        links_up_to(actions, base, lt, prefix, n - 1) + (if link_included(
            actions,
            n - 1,
            base,
            lt,
            prefix,
        ) {
            seq![link_at(actions, n - 1)]
        } else {
            Seq::<LinkView>::empty()
        })
    }
}

/// What a lookup returns on a whole log: all live links under the base,
/// type and tag-prefix filter, ordered by creation sequence.
pub open spec fn spec_get_links(
    c: ChainView,
    base: ContentHash,
    lt: LinkType,
    prefix: Option<Seq<u8>>,
) -> Seq<LinkView> {
    links_up_to(c.actions, base, lt, prefix, c.actions.len() as int)
}

/// Once the log tombstones creating-action hash `h`, no link a lookup
/// returns was created by that action: every returned link is live, and a
/// live link's creating hash cannot be a tombstoned one.
pub proof fn lemma_links_avoid_deleted(
    actions: Seq<ActionView>,
    base: ContentHash,
    lt: LinkType,
    prefix: Option<Seq<u8>>,
    n: int,
    h: ContentHash,
)
    requires
        0 <= n <= actions.len(),
        is_deleted(actions, h),
    ensures
        forall|k: int|
            0 <= k < links_up_to(actions, base, lt, prefix, n).len() ==> (#[trigger] links_up_to(
                actions,
                base,
                lt,
                prefix,
                n,
            )[k]).create_hash != h,
    decreases n,
{
    if n > 0 {
        lemma_links_avoid_deleted(actions, base, lt, prefix, n - 1, h);
        assert forall|k: int|
            0 <= k < links_up_to(actions, base, lt, prefix, n).len() implies (
        #[trigger] links_up_to(actions, base, lt, prefix, n)[k]).create_hash != h by {
            let v = links_up_to(actions, base, lt, prefix, n);
            let w = links_up_to(actions, base, lt, prefix, n - 1);
            if k < w.len() {
                assert(v[k] == w[k]);
            } else {
                assert(link_included(actions, n - 1, base, lt, prefix));
                assert(v[k] == link_at(actions, n - 1));
                assert(v[k].create_hash == spec_action_hash(actions[n - 1]));
                assert(!is_deleted(actions, spec_action_hash(actions[n - 1])));
            }
        }
    }
}

/// Executable test: does any action of the chain tombstone hash `h`?
fn is_deleted_exec(chain: &HashChain, h: ContentHash) -> (r: bool)
    ensures
        r == is_deleted(chain@.actions, h),
{
    let mut j: usize = 0;
    while j < chain.actions.len()
        invariant
            0 <= j <= chain@.actions.len(),
            chain@.actions.len() == chain.actions@.len(),
            forall|k: int|
                0 <= k < j ==> !((#[trigger] chain@.actions[k]).payload matches
                PayloadView::LinkDelete { create_hash } && create_hash == h),
        decreases chain@.actions.len() - j,
    {
        match &chain.actions[j].payload {
            ActionPayload::LinkDelete { create_hash } => {
                if *create_hash == h {
                    proof {
                        assert(chain@.actions[j as int].payload matches PayloadView::LinkDelete {
                            create_hash: ch,
                        } && ch == h);
                    }
                    return true;
                }
            },
            _ => {},
        }
        j = j + 1;
    }
    false
}

impl HashChain {
    /// Creates a typed, tagged link from `base` to `target` by appending a
    /// link-creating action; the link becomes immediately visible to
    /// lookups keyed by `base`.
    pub fn create_link(
        &mut self,
        base: ContentHash,
        target: ContentHash,
        link_type: LinkType,
        tag: Vec<u8>,
        timestamp: u64,
    ) -> (a: Action)
        requires
            chain_wf(old(self)@),
            old(self)@.actions.len() < u64::MAX,
        ensures
            a@ == spec_next_action(
                old(self)@,
                PayloadView::LinkCreate { base, target, link_type, tag: tag@ },
                timestamp,
            ),
            final(self)@ == chain_push(
                old(self)@,
                PayloadView::LinkCreate { base, target, link_type, tag: tag@ },
                timestamp,
            ),
            chain_wf(final(self)@),
    {
        self.append(ActionPayload::LinkCreate { base, target, link_type, tag }, timestamp)
    }

    /// Tombstones the link whose creating action has hash `create_hash` by
    /// appending a link-deleting action. Fails, leaving the chain
    /// unchanged, exactly when no live link-creating action with that hash
    /// stands on this agent's own chain.
    pub fn delete_link(&mut self, create_hash: ContentHash, timestamp: u64) -> (r: Result<
        Action,
        LinkError,
    >)
        requires
            chain_wf(old(self)@),
            old(self)@.actions.len() < u64::MAX,
        ensures
            match r {
                Ok(a) => has_live_create(old(self)@.actions, create_hash) && a@
                    == spec_next_action(
                    old(self)@,
                    PayloadView::LinkDelete { create_hash },
                    timestamp,
                ) && final(self)@ == chain_push(
                    old(self)@,
                    PayloadView::LinkDelete { create_hash },
                    timestamp,
                ) && chain_wf(final(self)@),
                Err(e) => e == LinkError::NotFound && !has_live_create(
                    old(self)@.actions,
                    create_hash,
                ) && final(self)@ == old(self)@,
            },
    {
        let ghost mut wi: int = 0;
        let found: bool = match self.find_index(create_hash) {
            Some(i) => {
                match &self.actions[i].payload {
                    ActionPayload::LinkCreate { .. } => {
                        proof {
                            wi = i as int;
                        }
                        true
                    },
                    _ => {
                        proof {
                            // The chain's hashes are distinct, so no other
                            // action carries this hash either.
                            assert forall|i2: int|
                                0 <= i2 < self@.actions.len() && spec_action_hash(
                                    #[trigger] self@.actions[i2],
                                ) == create_hash implies !is_link_create(self@.actions[i2]) by {
                                if i2 != i as int {
                                    lemma_chain_hashes_distinct(self@, i as int, i2);
                                }
                            }
                        }
                        false
                    },
                }
            },
            None => false,
        };
        if !found {
            return Err(LinkError::NotFound);
        }
        if is_deleted_exec(self, create_hash) {
            return Err(LinkError::NotFound);
        }
        proof {
            assert(0 <= wi < self@.actions.len() && is_link_create(self@.actions[wi])
                && spec_action_hash(self@.actions[wi]) == create_hash);
            assert(has_live_create(self@.actions, create_hash));
        }
        Ok(self.append(ActionPayload::LinkDelete { create_hash }, timestamp))
    }

    /// Returns all live links whose base and type match exactly and whose
    /// tag starts with the prefix (every tag when the prefix is absent),
    /// ordered by creation sequence. Empty, never an error, when nothing
    /// matches.
    pub fn get_links(
        &self,
        base: ContentHash,
        link_type: LinkType,
        tag_prefix: Option<&Vec<u8>>,
    ) -> (r: Vec<Link>)
        ensures
            r@.map_values(|l: Link| l@) == spec_get_links(
                self@,
                base,
                link_type,
                match tag_prefix {
                    None => None,
                    Some(p) => Some(p@),
                },
            ),
    {
        let ghost pv: Option<Seq<u8>> = match tag_prefix {
            None => None,
            Some(p) => Some(p@),
        };
        let mut out: Vec<Link> = Vec::new();
        let mut i: usize = 0;
        while i < self.actions.len()
            invariant
                0 <= i <= self@.actions.len(),
                self@.actions.len() == self.actions@.len(),
                pv == (match tag_prefix {
                    None => None::<Seq<u8>>,
                    Some(p) => Some(p@),
                }),
                out@.map_values(|l: Link| l@) == links_up_to(
                    self@.actions,
                    base,
                    link_type,
                    pv,
                    i as int,
                ),
            decreases self@.actions.len() - i,
        {
            let ghost prev_links = links_up_to(self@.actions, base, link_type, pv, i as int);
            let included: bool = match &self.actions[i].payload {
                ActionPayload::LinkCreate { base: b, target, link_type: t, tag } => {
                    if *b == base && *t == link_type {
                        match tag_prefix {
                            None => true,
                            Some(p) => has_prefix(p, tag),
                        }
                    } else {
                        false
                    }
                },
                _ => false,
            };
            if included {
                let h = action_hash(&self.actions[i]);
                if !is_deleted_exec(self, h) {
                    match &self.actions[i].payload {
                        ActionPayload::LinkCreate { base: b, target, link_type: t, tag } => {
                            let l = Link {
                                base: *b,
                                target: *target,
                                link_type: *t,
                                tag: copy_bytes(tag),
                                create_hash: h,
                                created_at: self.actions[i].timestamp,
                                seq: self.actions[i].seq,
                                tombstoned: false,
                            };
                            proof {
                                assert(link_included(self@.actions, i as int, base, link_type, pv));
                                assert(l@ =~= link_at(self@.actions, i as int));
                            }
                            out.push(l);
                        },
                        _ => {},
                    }
                }
            }
            proof {
                assert(out@.map_values(|l: Link| l@) =~= links_up_to(
                    self@.actions,
                    base,
                    link_type,
                    pv,
                    i + 1,
                ));
            }
            i = i + 1;
        }
        out
    }

    /// Creates a link and looks it straight back up: the freshly created
    /// link is the most recent one a lookup under its own base and type
    /// returns, and comes back exactly as it was created, live.
    pub fn create_and_get_link(
        &mut self,
        base: ContentHash,
        target: ContentHash,
        link_type: LinkType,
        tag: Vec<u8>,
        timestamp: u64,
    ) -> (l: Link)
        requires
            chain_wf(old(self)@),
            old(self)@.actions.len() < u64::MAX,
        ensures
            ({
                let p = PayloadView::LinkCreate { base, target, link_type, tag: tag@ };
                let a2 = spec_next_action(old(self)@, p, timestamp);
                l@ == (LinkView {
                    base,
                    target,
                    link_type,
                    tag: tag@,
                    create_hash: spec_action_hash(a2),
                    created_at: timestamp,
                    seq: old(self)@.actions.len() as u64,
                    tombstoned: false,
                }) && final(self)@ == chain_push(old(self)@, p, timestamp) && chain_wf(
                    final(self)@,
                )
            }),
    {
        let ghost c0 = self@;
        let ghost tv = tag@;
        self.create_link(base, target, link_type, tag, timestamp);
        let mut links = self.get_links(base, link_type, None);
        proof {
            lemma_create_link_visible(c0, base, target, link_type, tv, timestamp, None);
            assert(links@.map_values(|x: Link| x@).len() > 0);
        }
        match links.pop() {
            Some(l) => {
                proof {
                    let lv = links@.push(l);
                    assert(l@ == lv.map_values(|x: Link| x@).last());
                }
                l
            },
            None => {
                // Unreachable: the lookup returned the new link.
                proof {
                    assert(false);
                }
                Link {
                    base,
                    target,
                    link_type,
                    tag: Vec::new(),
                    create_hash: base,
                    created_at: timestamp,
                    seq: 0,
                    tombstoned: false,
                }
            },
        }
    }

    /// Creates a link and immediately tombstones it, returning the hash of
    /// the deleting action: the just-created link is live, so the deletion
    /// always succeeds.
    pub fn create_and_delete_link(
        &mut self,
        base: ContentHash,
        target: ContentHash,
        link_type: LinkType,
        tag: Vec<u8>,
        timestamp: u64,
    ) -> (dh: ContentHash)
        requires
            chain_wf(old(self)@),
            old(self)@.actions.len() + 1 < u64::MAX,
        ensures
            ({
                let p = PayloadView::LinkCreate { base, target, link_type, tag: tag@ };
                let a1 = spec_next_action(old(self)@, p, timestamp);
                let c1 = chain_push(old(self)@, p, timestamp);
                let pd = PayloadView::LinkDelete { create_hash: spec_action_hash(a1) };
                dh == spec_action_hash(spec_next_action(c1, pd, timestamp)) && final(self)@
                    == chain_push(c1, pd, timestamp) && chain_wf(final(self)@)
            }),
    {
        let ghost c0 = self@;
        let ghost tv = tag@;
        let a = self.create_link(base, target, link_type, tag, timestamp);
        let h = action_hash(&a);
        proof {
            lemma_new_create_live(c0, base, target, link_type, tv, timestamp);
        }
        match self.delete_link(h, timestamp) {
            Ok(d) => action_hash(&d),
            Err(_) => {
                // Unreachable: the link just created is live.
                proof {
                    assert(false);
                }
                h
            },
        }
    }
}

/// A freshly created link is live: nothing on the extended chain
/// tombstones the new action, since every tombstone refers back to an
/// earlier action, whose hash differs because its sequence number does.
pub proof fn lemma_new_create_live(
    c: ChainView,
    base: ContentHash,
    target: ContentHash,
    lt: LinkType,
    tag: Seq<u8>,
    ts: u64,
)
    requires
        chain_wf(c),
        c.actions.len() < u64::MAX,
    ensures
        ({
            let p = PayloadView::LinkCreate { base, target, link_type: lt, tag };
            let a2 = spec_next_action(c, p, ts);
            let c2 = chain_push(c, p, ts);
            !is_deleted(c2.actions, spec_action_hash(a2)) && has_live_create(
                c2.actions,
                spec_action_hash(a2),
            )
        }),
{
    let p = PayloadView::LinkCreate { base, target, link_type: lt, tag };
    let c2 = chain_push(c, p, ts);
    let a2 = spec_next_action(c, p, ts);
    let n = c.actions.len() as int;
    let h2 = spec_action_hash(a2);
    assert forall|j: int| 0 <= j < c2.actions.len() implies !((#[trigger] c2.actions[j]).payload
        matches PayloadView::LinkDelete { create_hash } && create_hash == h2) by {
        if j < n {
            assert(action_wf_at(c, j));
            match c.actions[j].payload {
                PayloadView::LinkDelete { create_hash } => {
                    let k = choose|k: int|
                        0 <= k < j && is_link_create(#[trigger] c.actions[k]) && spec_action_hash(
                            c.actions[k],
                        ) == create_hash;
                    assert(action_wf_at(c, k));
                    assert(c.actions[k].seq as int == k);
                    assert(a2.seq as int == n);
                    lemma_action_hash_injective_seq(c.actions[k], a2);
                },
                _ => {},
            }
        }
    }
    assert(!is_deleted(c2.actions, h2));
    assert(c2.actions[n] == a2);
    assert(is_link_create(c2.actions[n]));
}

/// Law: a link created on a well-formed chain is immediately visible — a
/// lookup on the extended chain under the link's own base and type returns
/// it last, not tombstoned, with exactly the base, target, type and tag it
/// was created with.
pub proof fn lemma_create_link_visible(
    c: ChainView,
    base: ContentHash,
    target: ContentHash,
    lt: LinkType,
    tag: Seq<u8>,
    ts: u64,
    prefix: Option<Seq<u8>>,
)
    requires
        chain_wf(c),
        c.actions.len() < u64::MAX,
        prefix_ok(prefix, tag),
    ensures
        ({
            let c2 = chain_push(c, PayloadView::LinkCreate { base, target, link_type: lt, tag }, ts);
            let v = spec_get_links(c2, base, lt, prefix);
            let a2 = spec_next_action(
                c,
                PayloadView::LinkCreate { base, target, link_type: lt, tag },
                ts,
            );
            v.len() > 0 && v.last() == (LinkView {
                base,
                target,
                link_type: lt,
                tag,
                create_hash: spec_action_hash(a2),
                created_at: ts,
                seq: c.actions.len() as u64,
                tombstoned: false,
            })
        }),
{
    let p = PayloadView::LinkCreate { base, target, link_type: lt, tag };
    let c2 = chain_push(c, p, ts);
    let a2 = spec_next_action(c, p, ts);
    let n = c.actions.len() as int;
    crate::chain::lemma_wf_push(c, p, ts);
    let h2 = spec_action_hash(a2);
    lemma_new_create_live(c, base, target, lt, tag, ts);
    assert(!is_deleted(c2.actions, h2));
    assert(c2.actions[n] == a2);
    assert(link_included(c2.actions, n, base, lt, prefix));
    let v = spec_get_links(c2, base, lt, prefix);
    assert(v == links_up_to(c2.actions, base, lt, prefix, n + 1));
    assert(v.last() == link_at(c2.actions, n));
    assert(v.last() =~= (LinkView {
        base,
        target,
        link_type: lt,
        tag,
        create_hash: h2,
        created_at: ts,
        seq: c.actions.len() as u64,
        tombstoned: false,
    }));
}

/// Law: after a tombstone referencing creating-action hash `h` is
/// appended, no lookup on the extended chain returns a link created by
/// that action, whatever base, type and prefix are asked for.
pub proof fn lemma_delete_link_hides(
    c: ChainView,
    h: ContentHash,
    ts: u64,
    base: ContentHash,
    lt: LinkType,
    prefix: Option<Seq<u8>>,
)
    ensures
        ({
            let c2 = chain_push(c, PayloadView::LinkDelete { create_hash: h }, ts);
            let v = spec_get_links(c2, base, lt, prefix);
            forall|k: int| 0 <= k < v.len() ==> (#[trigger] v[k]).create_hash != h
        }),
{
    let p = PayloadView::LinkDelete { create_hash: h };
    let c2 = chain_push(c, p, ts);
    let n = c2.actions.len() as int;
    assert(c2.actions[n - 1].payload matches PayloadView::LinkDelete { create_hash } && create_hash
        == h);
    assert(is_deleted(c2.actions, h));
    lemma_links_avoid_deleted(c2.actions, base, lt, prefix, n, h);
}

} // verus!
