//! The decisions of each command.
//!
//! Each module owns one command's rules and nothing else; running processes and printing is
//! the caller's work. Shared opening moves live in [`context`], so no command reimplements
//! them.
pub mod context;
pub mod doctor;
pub mod listing;
pub mod self_update;
pub mod status;
pub mod update;
