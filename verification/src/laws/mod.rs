//! What holds of the library as a whole, stated of what goes in and what comes out.

pub mod attaching;
pub mod content;
pub mod deleting;
pub mod guarding;
pub mod images;
pub mod importing;
pub mod integration;
pub mod listing;
pub mod messages;
pub mod migrating;
pub mod moving;
pub mod organizing;
pub mod preferences;
pub mod reporting;
pub mod saving;
pub mod searching;
pub mod watching;
pub mod words;
