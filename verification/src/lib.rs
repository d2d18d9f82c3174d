//! A verified digital-asset registry and marketplace: uniquely identified
//! assets ("kitties") with immutable genetic payloads, created from a seed,
//! bred from two existing assets, owned, transferred, listed for sale and
//! bought with an atomic currency settlement. Beside it stand two smaller
//! verified stores: a proof-of-existence claims table and a single stored
//! counter value.
//!
//! Callers are opaque account identifiers already authenticated outside;
//! block-level entropy and block numbers are handed in as plain values, so
//! every run is reproducible.

pub mod claims;
pub mod counter;
pub mod genetics;
pub mod ledger;
pub mod laws;
pub mod registry;
