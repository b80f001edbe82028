//! The shared runner of package-manager adapters (dnf, apt, pacman, ...):
//! which binary an adapter stands in for, how a mutating invocation is
//! handed to a system transaction, and what is reported afterwards.
pub mod adapter;
pub mod env;
