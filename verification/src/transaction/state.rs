//! The lifecycle states of a system transaction and its record.
use vstd::prelude::*;

verus! {

#[derive(Debug, Clone, Copy, PartialEq, Eq, Structural)]
pub enum TransactionState {
    Preparing,
    Running,
    Validating,
    Committing,
    Committed,
    Failed,
}

/// Record describing an in-progress or completed system transaction. Its
/// JSON form (one line per transaction in the manifest) is written and read
/// by the program around the library.
#[derive(Debug, Clone)]
pub struct TransactionRecord {
    pub id: String,
    pub kind: String,
    pub started_at_unix: u64,
    pub adapter: String,
    pub state: TransactionState,
    pub program: String,
    pub args: Vec<String>,
}

} // verus!
