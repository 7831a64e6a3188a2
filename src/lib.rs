//! Verified core of an XInput2 tablet backend: fixed-point axis transforms,
//! device identities, device classification, the tool phase machine and the
//! per-tick event pump decisions.
use vstd::prelude::*;

pub mod bytes;
pub mod classify;
pub mod engine;
pub mod events;
pub mod fixed;
pub mod hex;
pub mod id;
pub mod names;
pub mod snapshot;
pub mod tracker;

verus! {

} // verus!
