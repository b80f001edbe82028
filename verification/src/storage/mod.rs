//! Storage: how layers are found, cloned, frozen, merged and activated on
//! disk, independent of the OverlayFS assembly itself.
pub mod discover;
pub mod error;
pub mod validate;
pub mod risk;
pub mod overlay;
pub mod live_update;
pub mod backend;
pub mod boot;
pub mod generations;
pub mod whiteout;
pub mod squash;
pub mod opaque;
pub mod copy_tree;
