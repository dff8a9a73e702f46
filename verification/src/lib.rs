//! A registry of tiered quest listings.
//!
//! Providers on an allow-list publish listings in one of four tiers; external
//! parties commit to a listing, submit work against their commitment, and are
//! graded by the listing's provider.  The registry enforces per-tier capacity
//! and eligibility rules, derives each listing's `Open`/`Full` status from its
//! remaining capacity, and guards the one-shot modification of a listing's
//! base fields.
//!
//! `types` holds the data model and the spec-level helpers over submission
//! logs; `registry` holds the `Quests` registry with its five operations and
//! their transition relations; `laws` proves the properties that relate
//! several operations.

pub mod laws;
pub mod registry;
pub mod types;
