//! Automation and key-recovery engine for a desktop chat client: accessibility
//! path resolution, row-text heuristics, paginated session scanning, message
//! watching, tiered input writing and recovery of the local store's cipher key.

// Shared values and text primitives.
pub mod text;
pub mod types;

// Accessibility tree: path resolution, dynamic scans, row text.
pub mod ax_path;
pub mod ax_scan;
pub mod ax_snapshot;
pub mod row_text;
pub mod uia_select;

// Session-list scanning, message watching, input writing.
pub mod session_scan;
pub mod watcher;
pub mod input_writer;

// Platform stand-ins and discovery.
pub mod macos;
pub mod windows;
pub mod ui_paths;

// Key recovery and the encrypted store.
pub mod hex;
pub mod key_scan;
pub mod helper_output;
pub mod key_recovery;
pub mod schema;
pub mod cursor;
pub mod macos_db;

// Surrounding services.
pub mod listen_targets;
pub mod ipc;
pub mod deepseek;
pub mod agent_env;
pub mod conversation;
