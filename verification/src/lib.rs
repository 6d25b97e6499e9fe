//! Core of a desktop quick-launcher: given one free-text query and snapshots
//! of the candidate sources (file listings, installed executables, the
//! clipboard history), classify the query's intent, dispatch to the matching
//! handler, score and merge candidates from every source, and return one
//! ranked, bounded list of actionable results.
//!
//! The host shell around this library owns everything else: window and tray
//! lifecycle, global hotkeys, directory walking, and launching whatever the
//! user picks.

pub mod aggregate;
pub mod bindings;
pub mod clipboard;
pub mod intent;
pub mod rank;
pub mod results;
pub mod search;
pub mod text;

pub use aggregate::FileEntry;
pub use aggregate::get_common_apps;
pub use clipboard::ClipboardEntry;
pub use clipboard::ClipboardHistory;
pub use intent::Intent;
pub use intent::classify;
pub use intent::is_math_expression;
pub use intent::parse_conversion;
pub use results::AppState;
pub use results::FileResult;
pub use search::search;
