//! Bounded chain-activity queries: walking backward from a chain top via
//! predecessor hashes, stopping at genesis or at a depth bound, skipping
//! actions whose type the filter excludes.

use vstd::prelude::*;
use crate::hash::ContentHash;
use crate::chain::{
    Action, ActionType, ActionView, ChainView, HashChain, action_type_of, action_type_exec,
    action_wf_at, chain_wf, dup_action, lemma_chain_hashes_distinct, spec_action_hash,
};

verus! {

/// A bound on a backward chain walk: how many ancestors of the top to
/// visit, and which action types to return. An absent bound means
/// unlimited; an absent type set means every type.
pub struct ChainFilter {
    pub max_depth: Option<u32>,
    pub action_types: Option<Vec<ActionType>>,
}

/// The mathematical value of a [`ChainFilter`].
#[verifier::ext_equal]
pub ghost struct FilterView {
    pub max_depth: Option<u32>,
    pub action_types: Option<Seq<ActionType>>,
}

impl View for ChainFilter {
    type V = FilterView;

    open spec fn view(&self) -> FilterView {
        FilterView { max_depth: self.max_depth, action_types: types_view(self.action_types) }
    }
}

/// A predecessor hash could not be resolved on this chain: a
/// data-integrity fault, reported and never silently repaired.
#[derive(Clone, Copy, Debug, PartialEq, Eq, Structural)]
pub enum ChainWalkError {
    BrokenLink,
}

/// Whether an action type passes the filter's type set; every type passes
/// an absent set. Excluded actions are skipped, not stopping conditions.
pub open spec fn type_allowed(types: Option<Seq<ActionType>>, t: ActionType) -> bool {
    match types {
        None => true,
        Some(s) => s.contains(t),
    }
}

/// The mathematical value of an optional type set.
pub open spec fn types_view(types: Option<Vec<ActionType>>) -> Option<Seq<ActionType>> {
    match types {
        None => None,
        Some(ts) => Some(ts@),
    }
}

/// Executable counterpart of [`type_allowed`].
pub fn type_allowed_exec(types: &Option<Vec<ActionType>>, t: ActionType) -> (r: bool)
    ensures
        r == type_allowed(types_view(*types), t),
{
    match types.as_ref() {
        None => true,
        Some(ts) => {
            proof {
                assert(types_view(*types) == Some(ts@));
            }
            let mut k: usize = 0;
            while k < ts.len()
                invariant
                    0 <= k <= ts@.len(),
                    types_view(*types) == Some(ts@),
                    forall|m: int| 0 <= m < k ==> ts@[m] != t,
                decreases ts@.len() - k,
            {
                if ts[k] == t {
                    proof {
                        assert(ts@.contains(t));
                    }
                    return true;
                }
                k = k + 1;
            }
            proof {
                assert(!ts@.contains(t));
            }
            false
        },
    }
}

/// The actions at positions `hi` down to `lo` whose type the filter
/// admits, newest first — the chain's natural order seen from the top.
pub open spec fn collect_back(
    actions: Seq<ActionView>,
    hi: int,
    lo: int,
    types: Option<Seq<ActionType>>,
) -> Seq<ActionView>
    decreases hi - lo + 1,
{
    if hi < lo {
        Seq::empty()
    } else {
        (if type_allowed(types, action_type_of(actions[hi].payload)) {
            seq![actions[hi]]
        } else {
            Seq::<ActionView>::empty()
        }) + collect_back(actions, hi - 1, lo, types)
    }
}

/// The first position a walk from `t` visits: genesis, or `max_depth`
/// ancestors below the top, whichever comes first.
pub open spec fn start_of(t: int, max_depth: Option<u32>) -> int {
    match max_depth {
        None => 0,
        Some(d) => if t - d > 0 {
            t - d
        } else {
            0
        },
    }
}

/// What a bounded walk from position `t` returns under a filter.
pub open spec fn spec_activity(actions: Seq<ActionView>, t: int, f: FilterView) -> Seq<
    ActionView,
> {
    collect_back(actions, t, start_of(t, f.max_depth), f.action_types)
}

/// Splitting a collected range at its lowest position.
pub proof fn lemma_collect_back_split(
    actions: Seq<ActionView>,
    hi: int,
    lo: int,
    types: Option<Seq<ActionType>>,
)
    requires
        lo <= hi,
    ensures
        collect_back(actions, hi, lo, types) == collect_back(actions, hi, lo + 1, types) + (
        if type_allowed(types, action_type_of(actions[lo].payload)) {
            seq![actions[lo]]
        } else {
            Seq::<ActionView>::empty()
        }),
    decreases hi - lo,
{
    let tail = if type_allowed(types, action_type_of(actions[lo].payload)) {
        seq![actions[lo]]
    } else {
        Seq::<ActionView>::empty()
    };
    if hi == lo {
        assert(collect_back(actions, hi - 1, lo, types) == Seq::<ActionView>::empty());
        assert(collect_back(actions, hi, lo + 1, types) == Seq::<ActionView>::empty());
        assert(collect_back(actions, hi, lo, types) =~= collect_back(actions, hi, lo + 1, types)
            + tail);
    } else {
        lemma_collect_back_split(actions, hi - 1, lo, types);
        assert(collect_back(actions, hi, lo, types) =~= collect_back(actions, hi, lo + 1, types)
            + tail);
    }
}

/// With no type filter, a collected range holds exactly the actions of
/// the range, newest first.
pub proof fn lemma_collect_back_all(actions: Seq<ActionView>, hi: int, lo: int)
    requires
        0 <= lo <= hi < actions.len(),
    ensures
        collect_back(actions, hi, lo, None).len() == hi - lo + 1,
        forall|k: int|
            0 <= k <= hi - lo ==> collect_back(actions, hi, lo, None)[k] == actions[hi - k],
    decreases hi - lo,
{
    let v = collect_back(actions, hi, lo, None);
    if hi == lo {
        assert(collect_back(actions, hi - 1, lo, None) == Seq::<ActionView>::empty());
        assert(v =~= seq![actions[hi]]);
    } else {
        lemma_collect_back_all(actions, hi - 1, lo);
        let w = collect_back(actions, hi - 1, lo, None);
        assert(v =~= seq![actions[hi]] + w);
        assert forall|k: int| 0 <= k <= hi - lo implies v[k] == actions[hi - k] by {
            if k > 0 {
                assert(v[k] == w[k - 1]);
                assert(w[k - 1] == actions[hi - 1 - (k - 1)]);
            }
        }
    }
}

/// Law: a walk from the head of a well-formed chain, unbounded and
/// unfiltered, yields every action, with sequence numbers strictly
/// decreasing by exactly one — no gaps — from the head down to genesis.
pub proof fn lemma_full_walk_descending(c: ChainView)
    requires
        chain_wf(c),
        c.actions.len() > 0,
    ensures
        ({
            let v = spec_activity(
                c.actions,
                c.actions.len() - 1,
                FilterView { max_depth: None, action_types: None },
            );
            v.len() == c.actions.len() && forall|k: int|
                0 <= k < v.len() ==> (#[trigger] v[k]).seq as int == c.actions.len() - 1 - k
        }),
{
    let n = c.actions.len() as int;
    lemma_collect_back_all(c.actions, n - 1, 0);
    let v = spec_activity(c.actions, n - 1, FilterView { max_depth: None, action_types: None });
    assert forall|k: int| 0 <= k < v.len() implies (#[trigger] v[k]).seq as int == n - 1 - k by {
        assert(v[k] == c.actions[n - 1 - k]);
        assert(action_wf_at(c, n - 1 - k));
    }
}

/// Law: a walk from position `t` bounded to `max_depth` ancestors and
/// unfiltered by type returns at most `max_depth + 1` actions — the top
/// and its nearest ancestors, in the chain's own order.
pub proof fn lemma_activity_depth_bound(actions: Seq<ActionView>, t: int, d: u32)
    requires
        0 <= t < actions.len(),
    ensures
        ({
            let v = spec_activity(
                actions,
                t,
                FilterView { max_depth: Some(d), action_types: None },
            );
            v.len() <= d + 1 && v.len() == (if t - d > 0 {
                d + 1
            } else {
                t + 1
            }) && forall|k: int| 0 <= k < v.len() ==> #[trigger] v[k] == actions[t - k]
        }),
{
    let lo = start_of(t, Some(d));
    lemma_collect_back_all(actions, t, lo);
}

/// Walks backward from `chain_top` following predecessor hashes: the
/// action with that hash, then its ancestors, down to genesis or to
/// `max_depth` ancestors, returning — newest first — those actions whose
/// type the filter admits. Fails with `BrokenLink` exactly when no action
/// of the chain carries the hash `chain_top`; on a well-formed chain every
/// inner predecessor hash resolves.
pub fn get_agent_activity(chain: &HashChain, chain_top: ContentHash, filter: &ChainFilter) -> (r:
    Result<Vec<Action>, ChainWalkError>)
    requires
        chain_wf(chain@),
    ensures
        match r {
            Ok(v) => exists|t: int|
                0 <= t < chain@.actions.len() && spec_action_hash(#[trigger] chain@.actions[t])
                    == chain_top && v@.map_values(|a: Action| a@) == spec_activity(
                    chain@.actions,
                    t,
                    filter@,
                ),
            Err(e) => e == ChainWalkError::BrokenLink && forall|j: int|
                0 <= j < chain@.actions.len() ==> spec_action_hash(#[trigger] chain@.actions[j])
                    != chain_top,
        },
{
    let t: usize = match chain.find_index(chain_top) {
        None => {
            return Err(ChainWalkError::BrokenLink);
        },
        Some(t) => t,
    };
    let start: usize = match filter.max_depth {
        None => 0,
        Some(d) => {
            if t > d as usize {
                t - d as usize
            } else {
                0
            }
        },
    };
    proof {
        assert(start as int == start_of(t as int, filter@.max_depth));
    }
    let mut out: Vec<Action> = Vec::new();
    if type_allowed_exec(&filter.action_types, action_type_exec(&chain.actions[t].payload)) {
        out.push(dup_action(&chain.actions[t]));
    }
    proof {
        assert(collect_back(chain@.actions, t as int - 1, t as int, filter@.action_types)
            == Seq::<ActionView>::empty());
        assert(out@.map_values(|a: Action| a@) =~= collect_back(
            chain@.actions,
            t as int,
            t as int,
            filter@.action_types,
        ));
    }
    let mut i: usize = t;
    while i > start
        invariant
            chain_wf(chain@),
            chain@.actions.len() == chain.actions@.len(),
            start <= i <= t < chain@.actions.len(),
            spec_action_hash(chain@.actions[t as int]) == chain_top,
            out@.map_values(|a: Action| a@) == collect_back(
                chain@.actions,
                t as int,
                i as int,
                filter@.action_types,
            ),
        decreases i,
    {
        // Follow this action's predecessor hash one step back; on a
        // well-formed chain it resolves to the action one position down.
        proof {
            assert(action_wf_at(chain@, i as int));
        }
        let prev: Option<ContentHash> = chain.actions[i].prev;
        let ph: ContentHash = match prev {
            None => {
                // Unreachable: only genesis has no predecessor.
                proof {
                    assert(false);
                }
                return Err(ChainWalkError::BrokenLink);
            },
            Some(ph) => ph,
        };
        let j: usize = match chain.find_index(ph) {
            None => {
                // Unreachable: the predecessor stands at the previous
                // position of the chain.
                proof {
                    assert(spec_action_hash(chain@.actions[i as int - 1]) == ph);
                    assert(false);
                }
                return Err(ChainWalkError::BrokenLink);
            },
            Some(j) => j,
        };
        proof {
            if j as int != i as int - 1 {
                lemma_chain_hashes_distinct(chain@, j as int, i as int - 1);
            }
            assert(j as int == i as int - 1);
        }
        if type_allowed_exec(&filter.action_types, action_type_exec(&chain.actions[j].payload)) {
            out.push(dup_action(&chain.actions[j]));
        }
        proof {
            lemma_collect_back_split(
                chain@.actions,
                t as int,
                i as int - 1,
                filter@.action_types,
            );
            assert(out@.map_values(|a: Action| a@) =~= collect_back(
                chain@.actions,
                t as int,
                i as int - 1,
                filter@.action_types,
            ));
        }
        i = j;
    }
    proof {
        assert(out@.map_values(|a: Action| a@) == spec_activity(
            chain@.actions,
            t as int,
            filter@,
        ));
    }
    Ok(out)
}

} // verus!
