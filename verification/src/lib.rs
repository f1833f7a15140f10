//! A single-agent, content-addressed storage and access-control core:
//! an append-only hash chain of actions, a capability-grant authorization
//! layer, a typed link-graph index derived from the chain, and bounded
//! backward chain-activity queries.

pub mod hash;
pub mod chain;
pub mod links;
pub mod caps;
pub mod query;
pub mod entries;
