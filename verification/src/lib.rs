//! Userspace control plane for a pluggable CPU scheduler on heterogeneous
//! desktop processors (AMD Zen4/Zen5 with and without stacked L3 cache,
//! Intel hybrid parts).
//!
//! The crate holds the verified logic of the control loop: topology
//! detection, workload classification, shared-map record encoding, event
//! decoding, runtime-tunable reconciliation, and the V-Cache/EPP policy.
//! All functions work on plain values; reading sysfs/procfs and talking to
//! the in-kernel program are left to the surrounding binary.

pub mod bytes;
pub mod cgroup;
pub mod container;
pub mod control;
pub mod events;
pub mod gaming;
pub mod gpu;
pub mod intel;
pub mod maps;
pub mod patterns;
pub mod pbo;
pub mod profile_text;
pub mod profiles;
pub mod stats;
pub mod syncer;
pub mod text;
pub mod textnum;
pub mod topology;
pub mod tunables;
pub mod vcache;
pub mod vm;
pub mod workload;
