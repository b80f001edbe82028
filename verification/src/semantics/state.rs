//! On-disk LayerFS state metadata.
use vstd::prelude::*;

verus! {

/// Durable identifiers of the currently active UPDATE/UPDATE_HEAD pair.
#[derive(Debug, Clone, PartialEq, Eq)]
pub struct UpdateState {
    pub update: String,
    pub update_head: String,
}

/// LayerFS state metadata (`state.json`). Its JSON form is written and read
/// by the program around the library.
#[derive(Debug, Clone, PartialEq, Eq)]
pub struct State {
    pub version: u32,
    pub base: String,
    pub update: Option<UpdateState>,
    pub override_layer: Option<String>,
    pub transaction: Option<String>,
}

impl State {
    pub const CURRENT_VERSION: u32 = 1;

    /// A fresh state with only BASE active.
    pub fn new(base: &str) -> (r: Self)
        ensures
            r.version == State::CURRENT_VERSION,
            r.base@ == base@,
            r.update is None,
            r.override_layer is None,
            r.transaction is None,
    {
        State {
            version: State::CURRENT_VERSION,
            base: base.to_owned(),
            update: None,
            override_layer: None,
            transaction: None,
        }
    }
}

} // verus!
