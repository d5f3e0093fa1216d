//! The names under the data directory and the patience of the instance lock.

use vstd::prelude::*;

verus! {

/// How long opening an engine waits for the instance lock, in milliseconds.
pub const INSTANCE_LOCK_TIMEOUT_MILLISECONDS: u32 = 5000;

/// The file under the data directory that holds the manifest.
pub const FILE_STORAGE_INFO: &'static str = "storage-info";

/// The file under the data directory that carries the instance lock.
pub const FILE_STORAGE_LOCK: &'static str = "storage-lock";

/// The directory under the data directory that holds one blob per item.
pub const DIR_STORAGE_DATA: &'static str = "storage";

} // verus!
