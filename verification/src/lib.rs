//! The verified core of cargo-wipe, a terminal tool that finds Cargo `target/`
//! directories and reclaims the disk space they take.

pub mod app;
pub mod call_laws;
pub mod delete;
pub mod delete_laws;
pub mod input;
pub mod key_laws;
pub mod keys;
pub mod laws;
pub mod layout;
pub mod list_laws;
pub mod manifest;
pub mod manifest_laws;
pub mod path;
pub mod path_laws;
pub mod poll;
pub mod poll_laws;
pub mod purge;
pub mod scan;
pub mod scan_laws;
pub mod screen;
pub mod screen_laws;
pub mod start;
pub mod text;
pub mod text_laws;
pub mod view_laws;
pub mod walk_laws;
pub mod workspace;
