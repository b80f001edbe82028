//! LayerFS: a transactional, layered, recoverable root filesystem. This
//! library holds its decision logic — checkpoints, boot options, layer
//! stacks, store discovery, transactions, boot-loader configuration — as
//! verified functions from plain values to plain values; the program
//! around it performs the mounts and file operations.
use vstd::prelude::*;

pub mod adapter;
pub mod semantics;
pub mod ctl;
pub mod init;
pub mod storage;
pub mod text;
pub mod transaction;

verus! {
} // verus!
