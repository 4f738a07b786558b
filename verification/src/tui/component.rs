//! Identities of the parts of the interface, and how far a key event travels.
use vstd::prelude::*;

verus! {

/// The identity of a part of the interface.
#[derive(Debug, Clone, Copy, PartialEq, Eq, Hash, Structural)]
pub struct ComponentId(pub u64);

/// Whether a key event goes on to the next part of the interface.
#[derive(Debug, Clone, Copy, PartialEq, Eq, Structural)]
pub enum EventPropagation {
    Stop,
    Continue,
}

} // verus!
