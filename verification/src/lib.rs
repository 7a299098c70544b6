//! A verified core for a desktop application launcher.
//!
//! The library scans descriptor listings for application descriptor files,
//! loads display-name/exec-command records out of them, filters the resulting
//! catalog by a live case-insensitive substring query, and drives the
//! key-by-key state machine of the launcher window.

pub mod entry;
pub mod filter;
pub mod scan;
pub mod state;
pub mod text;
