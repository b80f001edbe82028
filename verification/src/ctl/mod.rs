//! `layerctl`, the administrative command line: argument parsing, store
//! inspection, structural verification, and the boot-loader settings it
//! writes.
pub mod bootcfg;
pub mod cli;
pub mod commands;
pub mod doctor;
pub mod install;
pub mod store;
pub mod verify;
pub mod walk;
