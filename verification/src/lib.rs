//! Local clipboard history.

pub mod blob_store;
pub mod browser_metadata;
pub mod capabilities;
pub mod clipboard;
pub mod clock;
pub mod commands;
pub mod diagnostics;
pub mod domain;
pub mod files;
pub mod hashing;
pub mod identity;
pub mod imaging;
pub mod jobs;
pub mod json;
pub mod laws;
pub mod migration;
pub mod native_host;
pub mod persistence;
pub mod popup_state;
pub mod ranking;
pub mod sequences;
pub mod settings;
pub mod text;
