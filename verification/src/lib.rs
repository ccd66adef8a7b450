//! Hardware power management for Linux laptops: the decisions behind it.
pub mod text;
pub mod types;
pub mod sysfs;
pub mod backend;
pub mod battery;
pub mod backends;
pub mod detect;
pub mod config;
pub mod engine;
pub mod gpu;
pub mod wire;
pub mod conflicts;
pub mod autoprofile;
pub mod actions;
pub mod source;
pub mod display;
pub mod cli;
pub mod iface;
pub mod dump;
