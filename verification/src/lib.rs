//! A resource-lifecycle layer for an in-kernel virtual-machine subsystem,
//! verified against an explicit model of the kernel-side state.
//!
//! Compiled object artifacts are opened into an [`object::Object`], whose
//! contained map and program definitions are configured through builders and
//! then loaded into a [`kernel::Kernel`] state value, yielding file-descriptor
//! backed handles. Loaded programs attach to kernel hooks, producing
//! [`object::Link`] values that detach again when released.
//!
//! The kernel itself only ever acts through syscalls, which verification
//! cannot reach; everything this crate proves is stated over the [`kernel`]
//! model, and an unverified backend may carry the same decisions to the real
//! syscall interface.

pub mod artifact;
pub mod errors;
pub mod flags;
pub mod kernel;
pub mod laws;
pub mod object;
pub mod types;
pub mod util;
