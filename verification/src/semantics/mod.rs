//! Pure LayerFS semantics: checkpoints, layers, boot options and state
//! metadata.
pub mod boot_options;
pub mod checkpoint;
pub mod error;
pub mod layer;
pub mod path_class;
pub mod squash;
pub mod state;
