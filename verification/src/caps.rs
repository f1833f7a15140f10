//! The capability store: explicit grants gating which functions a caller
//! may invoke, claims presented as proof, and fresh per-call authorization
//! under a fixed priority order. A later grant with the same tag
//! supersedes an earlier one (most-recent-wins), which is also the only
//! revocation mechanism: superseding with an empty function set.

use vstd::prelude::*;
use crate::hash::{ContentHash, HashKind, mix, mix_exec, mix_hash, mix_hash_exec, fold_bytes, fold_bytes_exec};
use crate::chain::{
    Action, ActionPayload, HashChain, PayloadView, chain_push, chain_wf, spec_next_action,
};

verus! {

/// One remote-callable function, named by zome and function name.
#[derive(Clone, Debug)]
pub struct GrantedFunction {
    pub zome: Vec<u8>,
    pub function: Vec<u8>,
}

/// The mathematical value of a [`GrantedFunction`].
#[verifier::ext_equal]
pub ghost struct GrantedFunctionView {
    pub zome: Seq<u8>,
    pub function: Seq<u8>,
}

impl View for GrantedFunction {
    type V = GrantedFunctionView;

    open spec fn view(&self) -> GrantedFunctionView {
        GrantedFunctionView { zome: self.zome@, function: self.function@ }
    }
}

/// Who a grant admits: anyone, a fixed set of agents, or any holder of a
/// transferable secret.
#[derive(Clone, Debug)]
pub enum AccessMode {
    Unrestricted,
    Assigned { agents: Vec<ContentHash> },
    Transferable { secret: Vec<u8> },
}

/// The mathematical value of an [`AccessMode`].
#[verifier::ext_equal]
pub ghost enum AccessView {
    Unrestricted,
    Assigned { agents: Seq<ContentHash> },
    Transferable { secret: Seq<u8> },
}

impl View for AccessMode {
    type V = AccessView;

    open spec fn view(&self) -> AccessView {
        match self {
            AccessMode::Unrestricted => AccessView::Unrestricted,
            AccessMode::Assigned { agents } => AccessView::Assigned { agents: agents@ },
            AccessMode::Transferable { secret } => AccessView::Transferable { secret: secret@ },
        }
    }
}

/// A capability grant: a tag naming it, an access mode, and the set of
/// functions it authorizes. Created explicitly, never implicit.
#[derive(Clone, Debug)]
pub struct CapGrant {
    pub tag: Vec<u8>,
    pub access: AccessMode,
    pub functions: Vec<GrantedFunction>,
}

/// The mathematical value of a [`CapGrant`].
#[verifier::ext_equal]
pub ghost struct GrantView {
    pub tag: Seq<u8>,
    pub access: AccessView,
    pub functions: Seq<GrantedFunctionView>,
}

impl View for CapGrant {
    type V = GrantView;

    open spec fn view(&self) -> GrantView {
        GrantView {
            tag: self.tag@,
            access: self.access@,
            functions: self.functions@.map_values(|f: GrantedFunction| f@),
        }
    }
}

/// A capability claim, held by a caller and presented with a remote call:
/// it references a grant by tag and carries the grant's secret as proof.
#[derive(Clone, Debug)]
pub struct CapClaim {
    pub tag: Vec<u8>,
    pub secret: Vec<u8>,
}

/// The mathematical value of a [`CapClaim`].
#[verifier::ext_equal]
pub ghost struct ClaimView {
    pub tag: Seq<u8>,
    pub secret: Seq<u8>,
}

impl View for CapClaim {
    type V = ClaimView;

    open spec fn view(&self) -> ClaimView {
        ClaimView { tag: self.tag@, secret: self.secret@ }
    }
}

/// The definite outcome of an authorization check: never an error.
#[derive(Clone, Copy, Debug, PartialEq, Eq, Structural)]
pub enum AuthOutcome {
    Authorized,
    Denied,
}

/// The secret a presented claim carries, if one was presented.
pub open spec fn claim_secret(claim: Option<&CapClaim>) -> Option<Seq<u8>> {
    match claim {
        None => None,
        Some(c) => Some(c.secret@),
    }
}

/// Whether a grant lists the given zome and function.
pub open spec fn covers(g: GrantView, zome: Seq<u8>, function: Seq<u8>) -> bool {
    exists|k: int|
        0 <= k < g.functions.len() && (#[trigger] g.functions[k]).zome == zome
            && g.functions[k].function == function
}

/// Whether a grant's access mode admits the caller: unrestricted access
/// admits anyone; assigned access admits the listed agents; transferable
/// access admits any caller presenting the matching secret.
pub open spec fn access_permits(
    access: AccessView,
    caller: ContentHash,
    secret: Option<Seq<u8>>,
) -> bool {
    match access {
        AccessView::Unrestricted => true,
        AccessView::Assigned { agents } => agents.contains(caller),
        AccessView::Transferable { secret: s } => secret == Some(s),
    }
}

/// Whether the grant at position `i` is current: no later grant carries
/// the same tag (most-recent-wins supersession).
pub open spec fn is_current(grants: Seq<GrantView>, i: int) -> bool {
    forall|j: int| i < j < grants.len() ==> (#[trigger] grants[j]).tag != grants[i].tag
}

/// Whether some current grant both lists (zome, function) and admits the
/// caller. Evaluated fresh per call over the store as it stands.
pub open spec fn spec_authorized(
    grants: Seq<GrantView>,
    caller: ContentHash,
    zome: Seq<u8>,
    function: Seq<u8>,
    secret: Option<Seq<u8>>,
) -> bool {
    exists|i: int|
        0 <= i < grants.len() && #[trigger] is_current(grants, i) && covers(
            grants[i],
            zome,
            function,
        ) && access_permits(grants[i].access, caller, secret)
}

/// The content hash of a grant: a pure function of its tag, access mode
/// and function set.
pub open spec fn spec_grant_hash(g: GrantView) -> ContentHash {
    ContentHash {
        kind: HashKind::Entry,
        d0: fold_bytes(0x3c6ef372fe94f82bu64, g.tag),
        d1: access_lane(g.access),
        d2: functions_lane(0xbb67ae8584caa73bu64, g.functions),
        d3: mix(0xa54ff53a5f1d36f1u64, g.tag.len() as u64),
    }
}

/// The digest lane of an access mode, separating the variants.
pub open spec fn access_lane(access: AccessView) -> u64 {
    match access {
        AccessView::Unrestricted => mix(0x510e527fade682d1u64, 1),
        AccessView::Assigned { agents } => agents_lane(mix(0x510e527fade682d1u64, 2), agents),
        AccessView::Transferable { secret } => fold_bytes(
            mix(0x510e527fade682d1u64, 3),
            secret,
        ),
    }
}

/// Folds a sequence of agent keys into a digest lane.
pub open spec fn agents_lane(seed: u64, agents: Seq<ContentHash>) -> u64
    decreases agents.len(),
{
    if agents.len() == 0 {
        seed
    } else {
        mix_hash(agents_lane(seed, agents.drop_last()), agents.last())
    }
}

/// Folds a function set into a digest lane, separating the name pairs by
/// their lengths.
pub open spec fn functions_lane(seed: u64, fns: Seq<GrantedFunctionView>) -> u64
    decreases fns.len(),
{
    if fns.len() == 0 {
        seed
    } else {
        fold_bytes(
            mix(fold_bytes(mix(functions_lane(seed, fns.drop_last()), fns.last().zome.len() as u64), fns.last().zome), fns.last().function.len() as u64),
            fns.last().function,
        )
    }
}

/// Byte-string equality.
pub fn bytes_eq(a: &Vec<u8>, b: &Vec<u8>) -> (r: bool)
    ensures
        r == (a@ == b@),
{
    if a.len() != b.len() {
        return false;
    }
    let mut i: usize = 0;
    while i < a.len()
        invariant
            0 <= i <= a@.len(),
            a@.len() == b@.len(),
            forall|j: int| 0 <= j < i ==> a@[j] == b@[j],
        decreases a@.len() - i,
    {
        if a[i] != b[i] {
            return false;
        }
        i = i + 1;
    }
    proof {
        assert(a@ =~= b@);
    }
    true
}

/// Executable counterpart of [`agents_lane`].
fn agents_lane_exec(seed: u64, agents: &Vec<ContentHash>) -> (r: u64)
    ensures
        r == agents_lane(seed, agents@),
{
    let mut acc: u64 = seed;
    let mut i: usize = 0;
    while i < agents.len()
        invariant
            0 <= i <= agents@.len(),
            acc == agents_lane(seed, agents@.take(i as int)),
        decreases agents@.len() - i,
    {
        proof {
            assert(agents@.take(i + 1).drop_last() =~= agents@.take(i as int));
            assert(agents@.take(i + 1).last() == agents@[i as int]);
        }
        acc = mix_hash_exec(acc, &agents[i]);
        i = i + 1;
    }
    proof {
        assert(agents@.take(agents@.len() as int) =~= agents@);
    }
    acc
}

/// Executable counterpart of [`functions_lane`].
fn functions_lane_exec(seed: u64, fns: &Vec<GrantedFunction>) -> (r: u64)
    ensures
        r == functions_lane(seed, fns@.map_values(|f: GrantedFunction| f@)),
{
    let ghost fv = fns@.map_values(|f: GrantedFunction| f@);
    let mut acc: u64 = seed;
    let mut i: usize = 0;
    while i < fns.len()
        invariant
            0 <= i <= fns@.len(),
            fv == fns@.map_values(|f: GrantedFunction| f@),
            fv.len() == fns@.len(),
            acc == functions_lane(seed, fv.take(i as int)),
        decreases fns@.len() - i,
    {
        proof {
            assert(fv.take(i + 1).drop_last() =~= fv.take(i as int));
            assert(fv.take(i + 1).last() == fv[i as int]);
            assert(fv[i as int] == fns@[i as int]@);
        }
        let z = fold_bytes_exec(
            mix_exec(acc, fns[i].zome.len() as u64),
            fns[i].zome.as_slice(),
        );
        acc = fold_bytes_exec(
            mix_exec(z, fns[i].function.len() as u64),
            fns[i].function.as_slice(),
        );
        i = i + 1;
    }
    proof {
        assert(fv.take(fv.len() as int) =~= fv);
    }
    acc
}

/// Computes the content hash of a grant.
pub fn grant_hash(g: &CapGrant) -> (h: ContentHash)
    ensures
        h == spec_grant_hash(g@),
{
    let d1: u64 = match &g.access {
        AccessMode::Unrestricted => mix_exec(0x510e527fade682d1u64, 1),
        AccessMode::Assigned { agents } => agents_lane_exec(
            mix_exec(0x510e527fade682d1u64, 2),
            agents,
        ),
        AccessMode::Transferable { secret } => fold_bytes_exec(
            mix_exec(0x510e527fade682d1u64, 3),
            secret.as_slice(),
        ),
    };
    ContentHash {
        kind: HashKind::Entry,
        d0: fold_bytes_exec(0x3c6ef372fe94f82bu64, g.tag.as_slice()),
        d1,
        d2: functions_lane_exec(0xbb67ae8584caa73bu64, &g.functions),
        d3: mix_exec(0xa54ff53a5f1d36f1u64, g.tag.len() as u64),
    }
}

/// The store of capability grants an agent has issued, in issue order.
pub struct CapabilityStore {
    pub grants: Vec<CapGrant>,
}

impl View for CapabilityStore {
    type V = Seq<GrantView>;

    open spec fn view(&self) -> Seq<GrantView> {
        self.grants@.map_values(|g: CapGrant| g@)
    }
}

impl CapabilityStore {
    /// An empty store: nothing is granted implicitly.
    pub fn new() -> (s: CapabilityStore)
        ensures
            s@ == Seq::<GrantView>::empty(),
    {
        let s = CapabilityStore { grants: Vec::new() };
        proof {
            assert(s@ =~= Seq::<GrantView>::empty());
        }
        s
    }

    /// Records a grant and returns its content hash. Duplicates are legal;
    /// a later grant with the same tag supersedes earlier ones.
    pub fn grant(&mut self, g: CapGrant) -> (h: ContentHash)
        ensures
            final(self)@ == old(self)@.push(g@),
            h == spec_grant_hash(g@),
    {
        let ghost s0 = self@;
        let h = grant_hash(&g);
        let ghost gv = g@;
        self.grants.push(g);
        proof {
            assert(self@ =~= s0.push(gv));
        }
        h
    }

    /// Whether the grant at position `i` is current (no later grant has
    /// the same tag).
    fn is_current_exec(&self, i: usize) -> (r: bool)
        requires
            i < self@.len(),
        ensures
            r == is_current(self@, i as int),
    {
        let n = self.grants.len();
        proof {
            assert(self@.len() == self.grants@.len());
            assert(i < n);
        }
        let mut j: usize = i + 1;
        while j < self.grants.len()
            invariant
                i < j <= self@.len(),
                i < self@.len(),
                self@.len() == self.grants@.len(),
                forall|k: int| i < k < j ==> (#[trigger] self@[k]).tag != self@[i as int].tag,
            decreases self@.len() - j,
        {
            if bytes_eq(&self.grants[j].tag, &self.grants[i].tag) {
                proof {
                    assert(self@[j as int].tag == self.grants@[j as int]@.tag);
                    assert(self@[i as int].tag == self.grants@[i as int]@.tag);
                }
                return false;
            }
            j = j + 1;
        }
        true
    }

    /// Whether the grant at position `i` lists (zome, function).
    fn covers_exec(&self, i: usize, zome: &Vec<u8>, function: &Vec<u8>) -> (r: bool)
        requires
            i < self@.len(),
        ensures
            r == covers(self@[i as int], zome@, function@),
    {
        let fns = &self.grants[i].functions;
        let ghost gv = self@[i as int];
        let mut k: usize = 0;
        while k < fns.len()
            invariant
                0 <= k <= fns@.len(),
                gv == self@[i as int],
                i < self@.len(),
                self@.len() == self.grants@.len(),
                gv.functions == fns@.map_values(|f: GrantedFunction| f@),
                gv.functions.len() == fns@.len(),
                forall|m: int|
                    0 <= m < k ==> !((#[trigger] gv.functions[m]).zome == zome@
                        && gv.functions[m].function == function@),
            decreases fns@.len() - k,
        {
            if bytes_eq(&fns[k].zome, zome) && bytes_eq(&fns[k].function, function) {
                proof {
                    assert(gv.functions[k as int].zome == zome@ && gv.functions[k as int].function
                        == function@);
                }
                return true;
            }
            k = k + 1;
        }
        false
    }

    /// Whether the grant at position `i` admits the caller, given the
    /// presented claim.
    fn permits_exec(&self, i: usize, caller: ContentHash, claim: Option<&CapClaim>) -> (r: bool)
        requires
            i < self@.len(),
        ensures
            r == access_permits(self@[i as int].access, caller, claim_secret(claim)),
    {
        proof {
            assert(self@[i as int].access == self.grants@[i as int]@.access);
        }
        match &self.grants[i].access {
            AccessMode::Unrestricted => true,
            AccessMode::Assigned { agents } => {
                let mut k: usize = 0;
                while k < agents.len()
                    invariant
                        0 <= k <= agents@.len(),
                        self@[i as int].access == (AccessView::Assigned { agents: agents@ }),
                        forall|m: int| 0 <= m < k ==> agents@[m] != caller,
                    decreases agents@.len() - k,
                {
                    if agents[k] == caller {
                        proof {
                            assert(agents@[k as int] == caller);
                            assert(agents@.contains(caller));
                        }
                        return true;
                    }
                    k = k + 1;
                }
                proof {
                    assert forall|m: int| 0 <= m < agents@.len() implies agents@[m] != caller by {}
                    assert(!agents@.contains(caller));
                }
                false
            },
            AccessMode::Transferable { secret } => {
                match claim {
                    None => false,
                    Some(c) => bytes_eq(&c.secret, secret),
                }
            },
        }
    }

    /// Decides, fresh for this call, whether `caller` may invoke
    /// (`zome`, `function`), in priority order: an unrestricted grant
    /// authorizes unconditionally; else an assigned grant listing the
    /// caller; else a transferable grant whose secret the presented claim
    /// matches; otherwise denied. Only current grants count; the outcome
    /// is definite and never an error.
    pub fn authorize(
        &self,
        caller: ContentHash,
        zome: &Vec<u8>,
        function: &Vec<u8>,
        claim: Option<&CapClaim>,
    ) -> (r: AuthOutcome)
        ensures
            (r == AuthOutcome::Authorized) == spec_authorized(
                self@,
                caller,
                zome@,
                function@,
                claim_secret(claim),
            ),
    {
        let mut i: usize = 0;
        while i < self.grants.len()
            invariant
                0 <= i <= self@.len(),
                self@.len() == self.grants@.len(),
                forall|m: int|
                    0 <= m < i ==> !(#[trigger] is_current(self@, m) && covers(
                        self@[m],
                        zome@,
                        function@,
                    ) && access_permits(self@[m].access, caller, claim_secret(claim))),
            decreases self@.len() - i,
        {
            if self.is_current_exec(i) && self.covers_exec(i, zome, function) && self.permits_exec(
                i,
                caller,
                claim,
            ) {
                return AuthOutcome::Authorized;
            }
            i = i + 1;
        }
        AuthOutcome::Denied
    }
}

/// Records a grant both in the store and on the chain: the grant is
/// committed as an entry-creating action carrying its content hash, and
/// that hash is returned.
pub fn grant_on_chain(
    store: &mut CapabilityStore,
    chain: &mut HashChain,
    g: CapGrant,
    timestamp: u64,
) -> (res: (ContentHash, Action))
    requires
        chain_wf(old(chain)@),
        old(chain)@.actions.len() < u64::MAX,
    ensures
        res.0 == spec_grant_hash(g@),
        final(store)@ == old(store)@.push(g@),
        res.1@ == spec_next_action(
            old(chain)@,
            PayloadView::EntryCreate { entry: spec_grant_hash(g@) },
            timestamp,
        ),
        final(chain)@ == chain_push(
            old(chain)@,
            PayloadView::EntryCreate { entry: spec_grant_hash(g@) },
            timestamp,
        ),
        chain_wf(final(chain)@),
{
    let h = store.grant(g);
    let a = chain.append(ActionPayload::EntryCreate { entry: h }, timestamp);
    (h, a)
}

/// Law: when a current grant with unrestricted access lists
/// (zome, function), authorization succeeds for every caller and every
/// presented secret — no claim is needed.
pub proof fn lemma_unrestricted_grant_authorizes(
    grants: Seq<GrantView>,
    caller: ContentHash,
    zome: Seq<u8>,
    function: Seq<u8>,
    i: int,
)
    requires
        0 <= i < grants.len(),
        is_current(grants, i),
        grants[i].access is Unrestricted,
        covers(grants[i], zome, function),
    ensures
        forall|secret: Option<Seq<u8>>| spec_authorized(grants, caller, zome, function, secret),
{
    assert forall|secret: Option<Seq<u8>>|
        spec_authorized(grants, caller, zome, function, secret) by {
        assert(access_permits(grants[i].access, caller, secret));
        assert(0 <= i < grants.len() && is_current(grants, i) && covers(grants[i], zome, function)
            && access_permits(grants[i].access, caller, secret));
    }
}

/// Law: when no grant of any kind lists (zome, function), authorization
/// is denied for every caller and every presented secret.
pub proof fn lemma_no_grant_denies(
    grants: Seq<GrantView>,
    caller: ContentHash,
    zome: Seq<u8>,
    function: Seq<u8>,
)
    requires
        forall|i: int| 0 <= i < grants.len() ==> !covers(#[trigger] grants[i], zome, function),
    ensures
        forall|secret: Option<Seq<u8>>| !spec_authorized(grants, caller, zome, function, secret),
{
}

} // verus!
