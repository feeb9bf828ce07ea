//! What can go wrong while a tree is built or compiled.

use vstd::prelude::*;

verus! {

/// A fault that ends the operation in which it is met. Neither is recovered
/// from: no partial tree and no partial buffer is handed out.
#[derive(Clone, Copy, Debug, PartialEq, Eq, Structural)]
pub enum TreeError {
    /// A weighted draw gave an opcode id that the catalog cannot build in the
    /// position asked for: the rate table and the catalog have drifted apart.
    CatalogInconsistency,
    /// The tree needs more instruction words or more pool entries than a
    /// channel has.
    CapacityExceeded,
}

} // verus!
