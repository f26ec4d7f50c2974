//! Workload class values shared with the in-kernel program.

use vstd::prelude::*;

verus! {

pub const WORKLOAD_GAMING: u32 = 1;

pub const WORKLOAD_INTERACTIVE: u32 = 2;

pub const WORKLOAD_BATCH: u32 = 3;

pub const WORKLOAD_AI: u32 = 4;

pub const WORKLOAD_VM_DEV: u32 = 5;

pub const WORKLOAD_VM_GAMING: u32 = 6;

pub const WORKLOAD_CONTAINER: u32 = 7;

} // verus!
