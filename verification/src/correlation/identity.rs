//! The identity under which an observation is correlated.
use vstd::prelude::*;

verus! {

/// An observation's identifier together with a hash of its captured
/// contents.
#[derive(Debug, Clone, Copy, PartialEq, Eq, Structural, Hash)]
pub struct ObservationIdentity {
    pub id: u64,
    pub source_hash: u64,
}

} // verus!
