//! Heuristic detection of whether the current process runs inside a container.
//!
//! The library holds the verified logic: scanning the text of the init
//! process's mount table and cgroup file, and combining the four probes in
//! short-circuit order. Reading the files is left to the caller.

use vstd::prelude::*;

pub mod detection;
pub mod scan;

verus! {

} // verus!
