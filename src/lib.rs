//! Republishing of feed entries: each feed job polls its feed on a schedule
//! and publishes each entry it has not seen yet to the feed's profiles,
//! remembering a bounded, newest-first record of the entries it has seen.
//!
//! - `dedup`: the record's model, what a tick does to it, and its laws.
//! - `tick`: one tick as a state machine driven by the caller's I/O.
//! - `feed`: a feed's configuration, fan-out to profiles, the initial snapshot.
//! - `memory`: the records of all jobs, by job identifier.
//! - `input`: comma-separated lists from the command line.
use vstd::prelude::*;

pub mod dedup;
pub mod feed;
pub mod input;
pub mod memory;
pub mod tick;

verus! {

} // verus!
