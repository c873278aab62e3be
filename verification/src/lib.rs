//! Verified core of a small diary / notes application: content sanitizing,
//! date display, query building, path layout, backup ordering and the
//! decisions taken when the application opens a note.

pub mod text;
pub mod sanitize;
pub mod display;
pub mod paths;
pub mod notes;
pub mod query;
pub mod settings;
pub mod backups;
pub mod session;
pub mod statements;
