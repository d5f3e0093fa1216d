//! Where an item is meant to be kept.

use vstd::prelude::*;

verus! {

/// Where an item is meant to be kept. The engine records the choice with
/// the item and does not act on it.
#[derive(Debug, Clone, Copy, PartialEq, Eq, Structural)]
pub enum StoragePersistence {
    /// Persist only in memory
    Memory,
    /// Persist only in disk
    Disk,
    /// Persist both in memory and disk
    Hybrid,
}

} // verus!
