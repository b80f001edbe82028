//! Boot-time root assembly decisions: which layers to mount, how to find
//! the store's device, and the handoff documents the boot writes.
pub mod device_scan;
pub mod mount;
pub mod store;
pub mod boot_claims;
pub mod luks;
pub mod modules;
pub mod migrate;
pub mod switch_root;
