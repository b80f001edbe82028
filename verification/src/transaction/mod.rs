//! The system transaction lifecycle: staging, validation and commit of new
//! UPDATE/UPDATE_HEAD generations.
pub mod error;
pub mod state;
pub mod transaction;
pub mod manifest;
