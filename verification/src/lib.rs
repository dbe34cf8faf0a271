//! Planning core of a void-process orchestrator.
//!
//! A void is a process whose ambient authority has been minimised: it lives in
//! fresh namespaces and keeps only the mounts and file descriptors granted to
//! it. This library holds the rules by which voids are described, validated,
//! wired together and constructed; system calls are left to the caller, who is
//! handed plain values saying what to do and reports back what happened.

pub mod args;
pub mod clone;
pub mod decimal;
pub mod error;
pub mod fabric;
pub mod rpc;
pub mod run;
pub mod spawner;
pub mod specification;
pub mod validation;
pub mod void;
pub mod wiring;
